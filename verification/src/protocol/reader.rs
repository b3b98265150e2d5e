//! The incremental frame assembler.
//!
//! A byte-level state machine that reconstructs one frame at a time from
//! a non-blocking byte source, tolerant of interleaved garbage and of
//! reads split at arbitrary boundaries.  Progress is an explicit state
//! tag plus a cursor into a fixed scratch buffer, never a call stack, so
//! a poll can be re-entered safely after a partial delivery.
//!
//! The machine is modelled by [`spec_step`], the transition taken for
//! one delivered chunk of bytes; everything the assembler promises, and
//! the resynchronization laws, are stated over that one function.

use vstd::prelude::*;
use crate::packet::PacketError;
use crate::packet::PacketReader;
use crate::protocol::stream::StreamError;
use crate::protocol::stream::StreamReader;

verus! {

/// The wire marker byte; two of them precede every frame.
pub const MARKER: u8 = 0xff;

/// The synchronisation state of the frame assembler.
#[derive(Clone, Copy, Debug, PartialEq, Eq, Structural)]
pub enum ReaderState {
    /// Scanning for the first marker byte.
    Marker1,
    /// One marker byte seen; expecting the second.
    Marker2,
    /// Accumulating the two header bytes (id and length).
    Header,
    /// Accumulating `length` further bytes (payload and checksum).
    Data,
    /// A full frame region stands in the buffer; the next poll re-arms.
    Completed,
}

/// The state of a frame assembler, as the contracts speak of it: the
/// synchronisation state, the cursor, and the scratch buffer contents.
pub ghost struct ReaderView {
    pub state: ReaderState,
    pub pos: int,
    pub buf: Seq<u8>,
}

impl ReaderView {
    /// Well-formedness: the cursor is where the state says it may be,
    /// and an accepted length fits the buffer.
    pub open spec fn wf(self) -> bool {
        &&& self.buf.len() >= 2
        &&& match self.state {
            ReaderState::Marker1 | ReaderState::Marker2 => self.pos == 0,
            ReaderState::Header => 0 <= self.pos < 2,
            ReaderState::Data => 2 <= self.pos && self.pos <= self.buf[1] + 2 && self.buf[1] + 2
                <= self.buf.len(),
            ReaderState::Completed => 2 <= self.pos && self.pos == self.buf[1] + 2 && self.pos
                <= self.buf.len(),
        }
    }

    /// How many bytes the assembler asks the source for in this state.
    pub open spec fn wanted(self) -> int {
        match self.state {
            ReaderState::Marker1 | ReaderState::Completed => 2,
            ReaderState::Marker2 => 1,
            ReaderState::Header => 2 - self.pos,
            ReaderState::Data => self.buf[1] + 2 - self.pos,
        }
    }

    /// The finished frame region: the buffer up to the cursor.
    pub open spec fn region(self) -> Seq<u8> {
        self.buf.take(self.pos)
    }
}

/// `buf` with `chunk` written at offset `pos`.
pub open spec fn spec_write_at(buf: Seq<u8>, pos: int, chunk: Seq<u8>) -> Seq<u8> {
    Seq::new(
        buf.len(),
        |i: int|
            if pos <= i < pos + chunk.len() {
                chunk[i - pos]
            } else {
                buf[i]
            },
    )
}

/// Where marker scanning lands after one chunk of at most two bytes:
/// both bytes markers advances to `Header`; a marker in either position
/// (including a lone marker byte) advances to `Marker2`; anything else,
/// including an empty chunk, stays at `Marker1`.
pub open spec fn spec_scan_state(chunk: Seq<u8>) -> ReaderState {
    if chunk.len() == 2 && chunk[0] == MARKER && chunk[1] == MARKER {
        ReaderState::Header
    } else if chunk.len() == 2 && (chunk[0] == MARKER || chunk[1] == MARKER) {
        ReaderState::Marker2
    } else if chunk.len() == 1 && chunk[0] == MARKER {
        ReaderState::Marker2
    } else {
        ReaderState::Marker1
    }
}

/// The chunk completes the header with a declared length that does not
/// fit the scratch buffer: the insufficient-capacity rejection.
pub open spec fn spec_step_overflow(v: ReaderView, chunk: Seq<u8>) -> bool {
    &&& v.state == ReaderState::Header
    &&& v.pos + chunk.len() == 2
    &&& spec_write_at(v.buf, v.pos, chunk)[1] + 2 > v.buf.len()
}

/// One transition of the assembler on one delivered chunk (of at most
/// [`ReaderView::wanted`] bytes; an empty chunk is a would-block, and
/// preserves all assembly progress).  The insufficient-capacity
/// rejection, which [`spec_step_overflow`] flags, re-arms marker
/// scanning.
pub open spec fn spec_step(v: ReaderView, chunk: Seq<u8>) -> ReaderView {
    match v.state {
        ReaderState::Marker1 | ReaderState::Completed => ReaderView {
            state: spec_scan_state(chunk),
            pos: 0,
            buf: v.buf,
        },
        ReaderState::Marker2 => ReaderView {
            state: if chunk.len() == 0 {
                // A would-block delivers nothing: the partial marker is
                // kept, so a marker pair split across polls still syncs.
                ReaderState::Marker2
            } else if chunk.len() == 1 && chunk[0] == MARKER {
                ReaderState::Header
            } else {
                ReaderState::Marker1
            },
            pos: 0,
            buf: v.buf,
        },
        ReaderState::Header => {
            let buf2 = spec_write_at(v.buf, v.pos, chunk);
            let pos2 = v.pos + chunk.len();
            if pos2 == 2 {
                if buf2[1] + 2 > buf2.len() {
                    // The insufficient-capacity rejection drops back to
                    // scanning, so subsequent parsing is not corrupted.
                    ReaderView { state: ReaderState::Marker1, pos: 0, buf: buf2 }
                } else {
                    ReaderView { state: ReaderState::Data, pos: 2, buf: buf2 }
                }
            } else {
                ReaderView { state: ReaderState::Header, pos: pos2, buf: buf2 }
            }
        },
        ReaderState::Data => {
            let buf2 = spec_write_at(v.buf, v.pos, chunk);
            let pos2 = v.pos + chunk.len();
            ReaderView {
                state: if pos2 == v.buf[1] + 2 {
                    ReaderState::Completed
                } else {
                    ReaderState::Data
                },
                pos: pos2,
                buf: buf2,
            }
        },
    }
}

/// The assembler state after a sequence of chunks.
pub open spec fn spec_feed(v: ReaderView, chunks: Seq<Seq<u8>>) -> ReaderView
    decreases chunks.len(),
{
    if chunks.len() == 0 {
        v
    } else {
        spec_feed(spec_step(v, chunks[0]), chunks.skip(1))
    }
}

/// Every chunk respects what was asked for at its point, and none hits
/// the insufficient-capacity rejection.
pub open spec fn spec_feed_admissible(v: ReaderView, chunks: Seq<Seq<u8>>) -> bool
    decreases chunks.len(),
{
    chunks.len() == 0 || {
        &&& chunks[0].len() <= v.wanted()
        &&& !spec_step_overflow(v, chunks[0])
        &&& spec_feed_admissible(spec_step(v, chunks[0]), chunks.skip(1))
    }
}

/// The failure taxonomy of the assembler: a source transport error, a
/// frame-level error, or a frame too long for the scratch buffer.
#[derive(Debug)]
pub enum ProtocolReaderError<ReaderError> {
    ReaderError(ReaderError),
    PacketError(PacketError),
    InsufficientBuffer,
}

/// How many transitions one `read` call may take before handing
/// control back; within one call this bounds how much line noise is
/// skipped, and the next call resumes where this one stopped.
pub const POLL_TRANSITION_BOUND: usize = 256;

/// The frame assembler: one scratch buffer (sized at construction), a
/// cursor, and a synchronisation state, persisted across polls for the
/// lifetime of one logical connection.
pub struct ProtocolReader<const BUFFER_SIZE: usize> {
    buffer: Vec<u8>,
    position: usize,
    state: ReaderState,
}

impl<const BUFFER_SIZE: usize> View for ProtocolReader<BUFFER_SIZE> {
    type V = ReaderView;

    closed spec fn view(&self) -> ReaderView {
        ReaderView { state: self.state, pos: self.position as int, buf: self.buffer@ }
    }
}

/// Writes `chunk` into `buffer` at offset `pos`.
fn write_at(buffer: &mut Vec<u8>, pos: usize, chunk: &Vec<u8>)
    requires
        pos + chunk@.len() <= old(buffer)@.len(),
    ensures
        final(buffer)@ == spec_write_at(old(buffer)@, pos as int, chunk@),
{
    let blen = buffer.len();
    let mut i: usize = 0;
    while i < chunk.len()
        invariant
            i <= chunk@.len(),
            pos + chunk@.len() <= blen,
            pos + chunk@.len() <= buffer@.len(),
            buffer@.len() == old(buffer)@.len(),
            forall|j: int| pos <= j < pos + i ==> buffer@[j] == chunk@[j - pos],
            forall|j: int|
                0 <= j < buffer@.len() && !(pos <= j < pos + i) ==> buffer@[j] == old(buffer)@[j],
        decreases chunk@.len() - i,
    {
        let b = chunk[i];
        buffer[pos + i] = b;
        i = i + 1;
    }
    proof {
        assert(buffer@ =~= spec_write_at(old(buffer)@, pos as int, chunk@));
    }
}

impl<const BUFFER_SIZE: usize> ProtocolReader<BUFFER_SIZE> {
    /// A fresh assembler with a scratch buffer of `BUFFER_SIZE` bytes,
    /// scanning for the first marker.
    pub fn new() -> (r: Self)
        requires
            BUFFER_SIZE >= 2,
        ensures
            r@.state == ReaderState::Marker1,
            r@.pos == 0,
            r@.buf.len() == BUFFER_SIZE,
            r@.wf(),
    {
        let mut buffer: Vec<u8> = Vec::new();
        while buffer.len() < BUFFER_SIZE
            invariant
                buffer@.len() <= BUFFER_SIZE,
            decreases BUFFER_SIZE - buffer@.len(),
        {
            buffer.push(0);
        }
        Self { buffer, position: 0, state: ReaderState::Marker1 }
    }

    /// One poll: asks the source for what the current state wants and
    /// takes one transition of [`spec_step`] on whatever came back (the
    /// would-block signal counts as an empty chunk).  Returns whether a
    /// frame is complete and whether the source delivered everything
    /// that was asked for.
    fn read_inner<R: StreamReader>(&mut self, reader: &mut R) -> (r: Result<
        (bool, bool),
        ProtocolReaderError<R::Error>,
    >)
        requires
            old(self)@.wf(),
        ensures
            final(self)@.wf(),
            final(self)@.buf.len() == old(self)@.buf.len(),
            r matches Ok(flags) ==> exists|chunk: Seq<u8>|
                {
                    &&& chunk.len() <= old(self)@.wanted()
                    &&& !spec_step_overflow(old(self)@, chunk)
                    &&& final(self)@ == #[trigger] spec_step(old(self)@, chunk)
                    &&& flags.0 == (final(self)@.state == ReaderState::Completed)
                    &&& flags.1 == (chunk.len() == old(self)@.wanted())
                },
            r matches Err(e) && e is InsufficientBuffer ==> exists|chunk: Seq<u8>|
                {
                    &&& chunk.len() <= old(self)@.wanted()
                    &&& spec_step_overflow(old(self)@, chunk)
                    &&& final(self)@ == #[trigger] spec_step(old(self)@, chunk)
                },
            r matches Err(e) && e is ReaderError ==> final(self)@ == old(self)@,
            !(r matches Err(e) && e is PacketError),
    {
        match self.state {
            ReaderState::Marker1 | ReaderState::Completed => {
                let chunk = match reader.read(2) {
                    Ok(v) => v,
                    Err(StreamError::WouldBlock) => Vec::new(),
                    Err(StreamError::Other(e)) => {
                        return Err(ProtocolReaderError::ReaderError(e));
                    },
                };
                let n = chunk.len();
                let new_state = if n == 1 && chunk[0] == MARKER {
                    ReaderState::Marker2
                } else if n == 2 {
                    if chunk[0] == MARKER && chunk[1] == MARKER {
                        ReaderState::Header
                    } else if chunk[0] == MARKER || chunk[1] == MARKER {
                        ReaderState::Marker2
                    } else {
                        ReaderState::Marker1
                    }
                } else {
                    ReaderState::Marker1
                };
                self.state = new_state;
                self.position = 0;
                proof {
                    assert(self@ == spec_step(old(self)@, chunk@));
                }
                Ok((false, n == 2))
            },
            ReaderState::Marker2 => {
                let chunk = match reader.read(1) {
                    Ok(v) => v,
                    Err(StreamError::WouldBlock) => Vec::new(),
                    Err(StreamError::Other(e)) => {
                        return Err(ProtocolReaderError::ReaderError(e));
                    },
                };
                let n = chunk.len();
                self.state = if n == 0 {
                    ReaderState::Marker2
                } else if n == 1 && chunk[0] == MARKER {
                    ReaderState::Header
                } else {
                    ReaderState::Marker1
                };
                self.position = 0;
                proof {
                    assert(self@ == spec_step(old(self)@, chunk@));
                }
                Ok((false, n == 1))
            },
            ReaderState::Header => {
                let want = 2 - self.position;
                let chunk = match reader.read(want) {
                    Ok(v) => v,
                    Err(StreamError::WouldBlock) => Vec::new(),
                    Err(StreamError::Other(e)) => {
                        return Err(ProtocolReaderError::ReaderError(e));
                    },
                };
                let n = chunk.len();
                write_at(&mut self.buffer, self.position, &chunk);
                let new_position = self.position + n;
                if new_position == 2 {
                    let length = self.buffer[1] as usize;
                    if length + 2 > self.buffer.len() {
                        self.state = ReaderState::Marker1;
                        self.position = 0;
                        proof {
                            assert(self@ == spec_step(old(self)@, chunk@));
                            assert(spec_step_overflow(old(self)@, chunk@));
                        }
                        return Err(ProtocolReaderError::InsufficientBuffer);
                    }
                    self.state = ReaderState::Data;
                    self.position = 2;
                } else {
                    self.position = new_position;
                }
                proof {
                    assert(self@ == spec_step(old(self)@, chunk@));
                }
                Ok((false, n == want))
            },
            ReaderState::Data => {
                let end = self.buffer[1] as usize + 2;
                let want = end - self.position;
                let chunk = match reader.read(want) {
                    Ok(v) => v,
                    Err(StreamError::WouldBlock) => Vec::new(),
                    Err(StreamError::Other(e)) => {
                        return Err(ProtocolReaderError::ReaderError(e));
                    },
                };
                let n = chunk.len();
                write_at(&mut self.buffer, self.position, &chunk);
                self.position = self.position + n;
                let completed = self.position == end;
                if completed {
                    self.state = ReaderState::Completed;
                }
                proof {
                    assert(self@ == spec_step(old(self)@, chunk@));
                }
                Ok((completed, n == want))
            },
        }
    }

    /// Drains the source: takes transitions while the source keeps
    /// delivering everything asked for.  Returns `Ok(true)` once a frame
    /// reaches [`ReaderState::Completed`]; returns `Ok(false)`, with all
    /// state preserved for the next call, when the source currently has
    /// no more bytes to offer (or, on a very noisy line, once
    /// [`POLL_TRANSITION_BOUND`] transitions have been taken this call).
    /// A source transport error propagates immediately, as does the
    /// insufficient-capacity rejection.  The final state is always the
    /// result of feeding some chunk sequence to [`spec_feed`].
    pub fn read<R: StreamReader>(&mut self, reader: &mut R) -> (r: Result<
        bool,
        ProtocolReaderError<R::Error>,
    >)
        requires
            old(self)@.wf(),
        ensures
            final(self)@.wf(),
            final(self)@.buf.len() == old(self)@.buf.len(),
            r matches Ok(b) ==> (b <==> final(self)@.state == ReaderState::Completed),
            r matches Ok(b) ==> exists|chunks: Seq<Seq<u8>>|
                chunks.len() > 0 && spec_feed_admissible(old(self)@, chunks) && final(self)@
                    == #[trigger] spec_feed(old(self)@, chunks),
            r matches Err(e) && e is ReaderError ==> exists|chunks: Seq<Seq<u8>>|
                spec_feed_admissible(old(self)@, chunks) && final(self)@ == #[trigger] spec_feed(
                    old(self)@,
                    chunks,
                ),
            r matches Err(e) && e is InsufficientBuffer ==> exists|
                chunks: Seq<Seq<u8>>,
                c: Seq<u8>,
            |
                {
                    &&& spec_feed_admissible(old(self)@, chunks)
                    &&& c.len() <= spec_feed(old(self)@, chunks).wanted()
                    &&& spec_step_overflow(spec_feed(old(self)@, chunks), c)
                    &&& final(self)@ == #[trigger] spec_step(
                        #[trigger] spec_feed(old(self)@, chunks),
                        c,
                    )
                },
            !(r matches Err(e) && e is PacketError),
    {
        let ghost v0 = self@;
        let ghost mut trace: Seq<Seq<u8>> = Seq::empty();
        proof {
            assert(spec_feed(v0, trace) == v0);
            assert(spec_feed_admissible(v0, trace));
        }
        let mut fuel: usize = POLL_TRANSITION_BOUND;
        loop
            invariant
                self@.wf(),
                self@.buf.len() == v0.buf.len(),
                v0 == old(self)@,
                spec_feed_admissible(v0, trace),
                self@ == spec_feed(v0, trace),
            decreases fuel,
        {
            let ghost pre = self@;
            let flags = match self.read_inner(reader) {
                Ok(t) => t,
                Err(e) => {
                    proof {
                        if e is InsufficientBuffer {
                            let c = choose|chunk: Seq<u8>|
                                {
                                    &&& chunk.len() <= pre.wanted()
                                    &&& spec_step_overflow(pre, chunk)
                                    &&& self@ == #[trigger] spec_step(pre, chunk)
                                };
                        }
                    }
                    return Err(e);
                },
            };
            proof {
                let c = choose|chunk: Seq<u8>|
                    {
                        &&& chunk.len() <= pre.wanted()
                        &&& !spec_step_overflow(pre, chunk)
                        &&& self@ == #[trigger] spec_step(pre, chunk)
                        &&& flags.0 == (self@.state == ReaderState::Completed)
                        &&& flags.1 == (chunk.len() == pre.wanted())
                    };
                lemma_feed_admissible_push(v0, trace, c);
                lemma_feed_push(v0, trace, c);
                trace = trace.push(c);
            }
            if flags.0 {
                return Ok(true);
            }
            if !flags.1 {
                return Ok(false);
            }
            if fuel == 0 {
                return Ok(false);
            }
            fuel = fuel - 1;
        }
    }

    /// The finished frame region, copied out.
    pub fn completed_frame(&self) -> (r: Vec<u8>)
        requires
            self@.wf(),
            self@.state == ReaderState::Completed,
        ensures
            r@ == self@.region(),
    {
        vstd::slice::slice_to_vec(
            vstd::slice::slice_subrange(self.buffer.as_slice(), 0, self.position),
        )
    }

    /// The finished frame, as a codec view over the buffer up to the
    /// cursor, once a frame is complete; `None` before that.
    pub fn packet<'a>(&'a self) -> (r: Option<PacketReader<'a>>)
        requires
            self@.wf(),
        ensures
            self@.state == ReaderState::Completed ==> (r matches Some(p) && p@ == self@.region()),
            self@.state != ReaderState::Completed ==> r is None,
    {
        match self.state {
            ReaderState::Completed => Some(
                PacketReader::new(
                    vstd::slice::slice_subrange(self.buffer.as_slice(), 0, self.position),
                ),
            ),
            _ => None,
        }
    }
}

/// No byte of `s` is the marker byte.
pub open spec fn marker_free(s: Seq<u8>) -> bool {
    forall|i: int| 0 <= i < s.len() ==> s[i] != MARKER
}

/// A frame region whose declared length is consistent (`length + 2`
/// bytes, length at least 1) and fits a scratch buffer of `cap` bytes.
pub open spec fn spec_region_fits(region: Seq<u8>, cap: int) -> bool {
    &&& region.len() >= 3
    &&& region.len() == region[1] + 2
    &&& region.len() <= cap
}

/// The chunks drain `stream` exactly: each chunk is a prefix of what
/// remains, no longer than the assembler asks for at that point, and
/// together they consume all of it.  An empty chunk — a would-block
/// poll — is admitted at any point while bytes remain.  This is how
/// any byte source delivers `stream`, whatever the chunk boundaries,
/// however many `read` calls they span and however often the source
/// momentarily blocks.
pub open spec fn spec_consumes(v: ReaderView, chunks: Seq<Seq<u8>>, stream: Seq<u8>) -> bool
    decreases chunks.len(),
{
    if chunks.len() == 0 {
        stream.len() == 0
    } else {
        &&& chunks[0].len() <= v.wanted()
        &&& chunks[0].len() <= stream.len()
        &&& 0 < chunks[0].len() + stream.len()
        &&& chunks[0] == stream.take(chunks[0].len() as int)
        &&& spec_consumes(
            spec_step(v, chunks[0]),
            chunks.skip(1),
            stream.skip(chunks[0].len() as int),
        )
    }
}

/// The conclusion of the resynchronization laws: after the chunks, a
/// frame is complete and the buffer holds exactly `region`.
pub open spec fn spec_completes(v: ReaderView, chunks: Seq<Seq<u8>>, region: Seq<u8>) -> bool {
    let end = spec_feed(v, chunks);
    &&& end.state == ReaderState::Completed
    &&& end.pos == region.len()
    &&& end.region() == region
    &&& end.buf.len() == v.buf.len()
    &&& end.wf()
}

proof fn lemma_complete_from_data(v: ReaderView, chunks: Seq<Seq<u8>>, region: Seq<u8>)
    requires
        v.wf(),
        v.state == ReaderState::Data,
        spec_region_fits(region, v.buf.len() as int),
        2 <= v.pos < region.len(),
        v.buf[1] == region[1],
        forall|i: int| 0 <= i < v.pos ==> v.buf[i] == region[i],
        spec_consumes(v, chunks, region.skip(v.pos)),
    ensures
        spec_completes(v, chunks, region),
    decreases chunks.len(),
{
    let rem = region.skip(v.pos);
    assert(rem.len() > 0);
    assert(chunks.len() > 0);
    let c = chunks[0];
    let v2 = spec_step(v, c);
    let rem2 = rem.skip(c.len() as int);
    assert(rem2 =~= region.skip(v.pos + c.len()));
    if c.len() == 0 {
        assert(v2.buf =~= v.buf);
        assert(v2 == v);
        assert(rem2 =~= rem);
        lemma_complete_from_data(v2, chunks.skip(1), region);
        return;
    }
    assert(forall|i: int| 0 <= i < v2.pos ==> v2.buf[i] == region[i]) by {
        assert(forall|j: int| 0 <= j < c.len() ==> c[j] == region[v.pos + j]);
    }
    if v.pos + c.len() == region.len() {
        assert(v2.state == ReaderState::Completed);
        assert(spec_consumes(v2, chunks.skip(1), rem2));
        assert(rem2.len() == 0);
        assert(chunks.skip(1).len() == 0) by {
            if chunks.skip(1).len() > 0 {
                assert(chunks.skip(1)[0].len() <= rem2.len());
                assert(0 < chunks.skip(1)[0].len() + rem2.len());
            }
        }
        assert(spec_feed(v2, chunks.skip(1)) == v2);
        assert(spec_feed(v, chunks) == v2);
        assert(v2.region() =~= region);
    } else {
        lemma_complete_from_data(v2, chunks.skip(1), region);
    }
}

proof fn lemma_complete_from_header(v: ReaderView, chunks: Seq<Seq<u8>>, region: Seq<u8>)
    requires
        v.wf(),
        v.state == ReaderState::Header,
        spec_region_fits(region, v.buf.len() as int),
        forall|i: int| 0 <= i < v.pos ==> v.buf[i] == region[i],
        spec_consumes(v, chunks, region.skip(v.pos)),
    ensures
        spec_completes(v, chunks, region),
    decreases chunks.len(),
{
    let rem = region.skip(v.pos);
    assert(rem.len() > 0);
    assert(chunks.len() > 0);
    let c = chunks[0];
    let v2 = spec_step(v, c);
    let rem2 = rem.skip(c.len() as int);
    assert(rem2 =~= region.skip(v.pos + c.len()));
    if c.len() == 0 {
        assert(v2.buf =~= v.buf);
        assert(v2 == v);
        assert(rem2 =~= rem);
        lemma_complete_from_header(v2, chunks.skip(1), region);
        return;
    }
    assert(forall|j: int| 0 <= j < c.len() ==> c[j] == region[v.pos + j]);
    if v.pos + c.len() == 2 {
        assert(v2.buf[1] == region[1]);
        assert(!spec_step_overflow(v, c));
        assert(v2.state == ReaderState::Data && v2.pos == 2);
        lemma_complete_from_data(v2, chunks.skip(1), region);
    } else {
        assert(v2.state == ReaderState::Header && v2.pos == 1);
        lemma_complete_from_header(v2, chunks.skip(1), region);
    }
}

proof fn lemma_complete_from_marker2(v: ReaderView, chunks: Seq<Seq<u8>>, region: Seq<u8>)
    requires
        v.wf(),
        v.state == ReaderState::Marker2,
        spec_region_fits(region, v.buf.len() as int),
        spec_consumes(v, chunks, seq![MARKER] + region),
    ensures
        spec_completes(v, chunks, region),
    decreases chunks.len(),
{
    let stream = seq![MARKER] + region;
    assert(chunks.len() > 0);
    let c = chunks[0];
    if c.len() == 0 {
        let v2 = spec_step(v, c);
        assert(v2.buf =~= v.buf);
        assert(v2 == v);
        assert(stream.skip(0) =~= stream);
        lemma_complete_from_marker2(v2, chunks.skip(1), region);
        return;
    }
    assert(c.len() == 1);
    assert(c[0] == stream[0]);
    let v2 = spec_step(v, c);
    assert(v2.state == ReaderState::Header && v2.pos == 0);
    assert(stream.skip(1) =~= region.skip(0));
    lemma_complete_from_header(v2, chunks.skip(1), region);
}

proof fn lemma_complete_scan(
    v: ReaderView,
    chunks: Seq<Seq<u8>>,
    garbage: Seq<u8>,
    region: Seq<u8>,
)
    requires
        v.wf(),
        v.state == ReaderState::Marker1 || v.state == ReaderState::Completed,
        marker_free(garbage),
        spec_region_fits(region, v.buf.len() as int),
        spec_consumes(v, chunks, garbage + seq![MARKER, MARKER] + region),
    ensures
        spec_completes(v, chunks, region),
    decreases chunks.len(),
{
    let stream = garbage + seq![MARKER, MARKER] + region;
    assert(stream.len() >= 2);
    assert(chunks.len() > 0);
    let c = chunks[0];
    let v2 = spec_step(v, c);
    let stream2 = stream.skip(c.len() as int);
    if c.len() == 0 {
        assert(v2.state == ReaderState::Marker1 && v2.pos == 0);
        assert(v2.buf =~= v.buf);
        assert(stream2 =~= stream);
        lemma_complete_scan(v2, chunks.skip(1), garbage, region);
    } else if c.len() == 1 {
        assert(c[0] == stream[0]);
        if garbage.len() == 0 {
            assert(c[0] == MARKER);
            assert(v2.state == ReaderState::Marker2);
            assert(stream2 =~= seq![MARKER] + region);
            lemma_complete_from_marker2(v2, chunks.skip(1), region);
        } else {
            assert(c[0] == garbage[0]);
            assert(v2.state == ReaderState::Marker1);
            assert(stream2 =~= garbage.skip(1) + seq![MARKER, MARKER] + region);
            assert(marker_free(garbage.skip(1)));
            lemma_complete_scan(v2, chunks.skip(1), garbage.skip(1), region);
        }
    } else {
        assert(c.len() == 2);
        assert(c[0] == stream[0] && c[1] == stream[1]);
        if garbage.len() == 0 {
            assert(c[0] == MARKER && c[1] == MARKER);
            assert(v2.state == ReaderState::Header && v2.pos == 0);
            assert(stream2 =~= region.skip(0));
            lemma_complete_from_header(v2, chunks.skip(1), region);
        } else if garbage.len() == 1 {
            assert(c[0] == garbage[0] && c[1] == MARKER);
            assert(c[0] != MARKER);
            assert(v2.state == ReaderState::Marker2);
            assert(stream2 =~= seq![MARKER] + region);
            lemma_complete_from_marker2(v2, chunks.skip(1), region);
        } else {
            assert(c[0] == garbage[0] && c[1] == garbage[1]);
            assert(v2.state == ReaderState::Marker1);
            assert(stream2 =~= garbage.skip(2) + seq![MARKER, MARKER] + region);
            assert(marker_free(garbage.skip(2)));
            lemma_complete_scan(v2, chunks.skip(1), garbage.skip(2), region);
        }
    }
}

/// Resynchronization: a stream of arbitrary non-marker bytes, then the
/// two markers and a valid frame region that fits the scratch buffer,
/// yields exactly that frame — whatever the garbage bytes are and
/// however the source splits the stream into deliveries, across any
/// number of `read` calls and with would-block pauses anywhere.
pub proof fn lemma_resynchronization(
    v: ReaderView,
    chunks: Seq<Seq<u8>>,
    garbage: Seq<u8>,
    region: Seq<u8>,
)
    requires
        v.wf(),
        v.state == ReaderState::Marker1 || v.state == ReaderState::Completed,
        marker_free(garbage),
        spec_region_fits(region, v.buf.len() as int),
        spec_consumes(v, chunks, garbage + seq![MARKER, MARKER] + region),
    ensures
        spec_completes(v, chunks, region),
{
    lemma_complete_scan(v, chunks, garbage, region);
}

/// Split reads: a valid frame alone yields itself, however its bytes
/// are split across deliveries, would-block pauses and `read` calls —
/// in particular, fed whole or fed across two calls, the decoded frame
/// is the same, namely `region`.
pub proof fn lemma_split_reads(v: ReaderView, chunks: Seq<Seq<u8>>, region: Seq<u8>)
    requires
        v.wf(),
        v.state == ReaderState::Marker1 || v.state == ReaderState::Completed,
        spec_region_fits(region, v.buf.len() as int),
        spec_consumes(v, chunks, seq![MARKER, MARKER] + region),
    ensures
        spec_completes(v, chunks, region),
{
    assert(Seq::<u8>::empty() + seq![MARKER, MARKER] + region =~= seq![MARKER, MARKER] + region);
    lemma_complete_scan(v, chunks, Seq::empty(), region);
}

/// Back-to-back frames: two consecutive valid frames, optionally
/// separated by non-marker garbage, yield both frames in order across
/// two successive completions.
pub proof fn lemma_back_to_back(
    v: ReaderView,
    chunks1: Seq<Seq<u8>>,
    chunks2: Seq<Seq<u8>>,
    separator: Seq<u8>,
    region1: Seq<u8>,
    region2: Seq<u8>,
)
    requires
        v.wf(),
        v.state == ReaderState::Marker1 || v.state == ReaderState::Completed,
        marker_free(separator),
        spec_region_fits(region1, v.buf.len() as int),
        spec_region_fits(region2, v.buf.len() as int),
        spec_consumes(v, chunks1, seq![MARKER, MARKER] + region1),
        spec_consumes(
            spec_feed(v, chunks1),
            chunks2,
            separator + seq![MARKER, MARKER] + region2,
        ),
    ensures
        spec_completes(v, chunks1, region1),
        spec_feed(v, chunks1 + chunks2) == spec_feed(spec_feed(v, chunks1), chunks2),
        spec_completes(spec_feed(v, chunks1), chunks2, region2),
{
    lemma_split_reads(v, chunks1, region1);
    lemma_complete_scan(spec_feed(v, chunks1), chunks2, separator, region2);
    lemma_feed_concat(v, chunks1, chunks2);
}

/// Feeding a concatenation is feeding one sequence after the other.
pub proof fn lemma_feed_concat(v: ReaderView, chunks1: Seq<Seq<u8>>, chunks2: Seq<Seq<u8>>)
    ensures
        spec_feed(v, chunks1 + chunks2) == spec_feed(spec_feed(v, chunks1), chunks2),
    decreases chunks1.len(),
{
    if chunks1.len() == 0 {
        assert(chunks1 + chunks2 =~= chunks2);
    } else {
        assert((chunks1 + chunks2)[0] == chunks1[0]);
        assert((chunks1 + chunks2).skip(1) =~= chunks1.skip(1) + chunks2);
        lemma_feed_concat(spec_step(v, chunks1[0]), chunks1.skip(1), chunks2);
    }
}

/// Admissibility composes over concatenation.
pub proof fn lemma_feed_admissible_concat(
    v: ReaderView,
    chunks1: Seq<Seq<u8>>,
    chunks2: Seq<Seq<u8>>,
)
    requires
        spec_feed_admissible(v, chunks1),
        spec_feed_admissible(spec_feed(v, chunks1), chunks2),
    ensures
        spec_feed_admissible(v, chunks1 + chunks2),
    decreases chunks1.len(),
{
    if chunks1.len() == 0 {
        assert(chunks1 + chunks2 =~= chunks2);
        assert(spec_feed(v, chunks1) == v);
    } else {
        assert((chunks1 + chunks2)[0] == chunks1[0]);
        assert((chunks1 + chunks2).skip(1) =~= chunks1.skip(1) + chunks2);
        assert(spec_feed(v, chunks1) == spec_feed(spec_step(v, chunks1[0]), chunks1.skip(1)));
        lemma_feed_admissible_concat(spec_step(v, chunks1[0]), chunks1.skip(1), chunks2);
    }
}

/// Insufficient capacity: a chunk that completes the header with a
/// declared length too large for the scratch buffer is flagged as the
/// capacity rejection, and the assembler re-arms marker scanning,
/// well-formed, so subsequent parsing goes on uncorrupted.
pub proof fn lemma_capacity_rejection(v: ReaderView, chunk: Seq<u8>)
    requires
        v.wf(),
        v.state == ReaderState::Header,
        chunk.len() <= v.wanted(),
        v.pos + chunk.len() == 2,
        spec_write_at(v.buf, v.pos, chunk)[1] + 2 > v.buf.len(),
    ensures
        spec_step_overflow(v, chunk),
        spec_step(v, chunk).wf(),
        spec_step(v, chunk).state == ReaderState::Marker1,
        spec_step(v, chunk).buf.len() == v.buf.len(),
{
}

/// Feeding one more chunk is stepping once more.
proof fn lemma_feed_push(v: ReaderView, chunks: Seq<Seq<u8>>, c: Seq<u8>)
    ensures
        spec_feed(v, chunks.push(c)) == spec_step(spec_feed(v, chunks), c),
    decreases chunks.len(),
{
    let p = chunks.push(c);
    if chunks.len() == 0 {
        assert(p[0] == c);
        assert(p.skip(1) =~= Seq::<Seq<u8>>::empty());
        assert(spec_feed(v, p) == spec_feed(spec_step(v, c), p.skip(1)));
        assert(spec_feed(spec_step(v, c), p.skip(1)) == spec_step(v, c));
        assert(spec_feed(v, chunks) == v);
    } else {
        assert(p[0] == chunks[0]);
        assert(p.skip(1) =~= chunks.skip(1).push(c));
        lemma_feed_push(spec_step(v, chunks[0]), chunks.skip(1), c);
        assert(spec_feed(v, p) == spec_feed(spec_step(v, p[0]), p.skip(1)));
        assert(spec_feed(v, chunks) == spec_feed(spec_step(v, chunks[0]), chunks.skip(1)));
    }
}

/// Admissibility extends chunk by chunk.
proof fn lemma_feed_admissible_push(v: ReaderView, chunks: Seq<Seq<u8>>, c: Seq<u8>)
    requires
        spec_feed_admissible(v, chunks),
        c.len() <= spec_feed(v, chunks).wanted(),
        !spec_step_overflow(spec_feed(v, chunks), c),
    ensures
        spec_feed_admissible(v, chunks.push(c)),
    decreases chunks.len(),
{
    let p = chunks.push(c);
    if chunks.len() == 0 {
        assert(p[0] == c);
        assert(p.skip(1) =~= Seq::<Seq<u8>>::empty());
        assert(spec_feed(v, chunks) == v);
        assert(spec_feed_admissible(spec_step(v, c), p.skip(1)));
    } else {
        assert(p[0] == chunks[0]);
        assert(p.skip(1) =~= chunks.skip(1).push(c));
        lemma_feed_push(v, chunks, c);
        assert(spec_feed(v, chunks) == spec_feed(spec_step(v, chunks[0]), chunks.skip(1)));
        lemma_feed_admissible_push(spec_step(v, chunks[0]), chunks.skip(1), c);
    }
}

} // verus!
