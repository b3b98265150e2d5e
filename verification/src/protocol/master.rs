//! The master side of an exchange: transmit a command frame, optionally
//! consume the transport's echo of it, assemble the response under a
//! timeout predicate, and validate it.

use vstd::prelude::*;
use crate::packet::PacketError;
use crate::packet::spec_id;
use crate::packet::spec_length;
use crate::packet::spec_payload;
use crate::packet::spec_verify_ok;
use crate::protocol::command::ReadRegisterCommand;
use crate::protocol::command::WriteRegisterCommand;
use crate::protocol::reader::ProtocolReader;
use crate::protocol::reader::ProtocolReaderError;
use crate::protocol::reader::ReaderState;
use crate::protocol::reader::ReaderView;
use crate::protocol::reader::lemma_feed_admissible_concat;
use crate::protocol::reader::lemma_feed_concat;
use crate::protocol::reader::spec_feed;
use crate::protocol::reader::spec_feed_admissible;
use crate::protocol::stream::StreamError;
use crate::protocol::stream::StreamReader;
use crate::protocol::stream::StreamWriter;
use crate::protocol::stream::TimeoutPredicate;

verus! {

/// The failure taxonomy of an exchange.
#[derive(Debug)]
pub enum ProtocolHandlerError<ReaderError, WriterError> {
    /// The response frame failed codec validation.
    PacketError(PacketError),
    /// The byte source failed.
    ReaderError(ReaderError),
    /// The byte sink failed.
    WriterError(WriterError),
    /// The frame assembler failed.
    ProtocolReaderError(ProtocolReaderError<ReaderError>),
    /// A response arrived from an id other than the one addressed.
    UnexpectedPacketId(u8),
    /// A read response's payload length did not match the request.
    UnexpectedLength(usize),
    /// The timeout predicate reported expiry before the step finished.
    TimedOut,
}

/// Master-wide configuration.
#[derive(Clone, Copy, Debug)]
pub struct ProtocolMasterConfig {
    /// The transport loops transmitted bytes back into the receive
    /// path; the master then discards one echoed frame before reading
    /// the real response.
    pub echo_back: bool,
}

/// The state of a master, as the contracts speak of it.
pub ghost struct MasterView {
    pub echo_back: bool,
    pub reader: ReaderView,
}

/// The master endpoint: a configuration and a frame assembler for the
/// responses.
pub struct ProtocolMaster<const BUFFER_SIZE: usize> {
    config: ProtocolMasterConfig,
    reader: ProtocolReader<BUFFER_SIZE>,
}

impl<const BUFFER_SIZE: usize> View for ProtocolMaster<BUFFER_SIZE> {
    type V = MasterView;

    closed spec fn view(&self) -> MasterView {
        MasterView { echo_back: self.config.echo_back, reader: self.reader@ }
    }
}

/// Writes all of `data`, looping on partial writes and on the
/// would-block signal; the timeout predicate is polled once per
/// iteration.  `Err(None)` reports its expiry, `Err(Some(e))` a sink
/// error.
fn transmit_all<W: StreamWriter, T: TimeoutPredicate>(
    writer: &mut W,
    data: &[u8],
    timeout: &mut T,
) -> (r: Result<(), Option<W::Error>>)
{
    let mut total: usize = 0;
    while total < data.len()
        invariant
            total <= data@.len(),
        decreases timeout.budget(),
    {
        let part = vstd::slice::slice_subrange(data, total, data.len());
        match writer.write(part) {
            Ok(n) => {
                total = total + n;
            },
            Err(StreamError::WouldBlock) => {},
            Err(StreamError::Other(e)) => {
                return Err(Some(e));
            },
        }
        if timeout.expired() {
            return Err(None);
        }
    }
    Ok(())
}

/// Polls the assembler until a frame completes; the timeout predicate
/// is polled once per iteration.  `Err(None)` reports its expiry,
/// `Err(Some(e))` an assembly failure.  On success the final assembler
/// state is the old one fed some nonempty admissible chunk sequence.
fn await_frame<R: StreamReader, T: TimeoutPredicate, const BUFFER_SIZE: usize>(
    assembler: &mut ProtocolReader<BUFFER_SIZE>,
    reader: &mut R,
    timeout: &mut T,
) -> (r: Result<(), Option<ProtocolReaderError<R::Error>>>)
    requires
        old(assembler)@.wf(),
    ensures
        final(assembler)@.wf(),
        final(assembler)@.buf.len() == old(assembler)@.buf.len(),
        r matches Ok(_) ==> final(assembler)@.state == ReaderState::Completed,
        r matches Ok(_) ==> exists|chunks: Seq<Seq<u8>>|
            ({
                &&& chunks.len() > 0
                &&& spec_feed_admissible(old(assembler)@, chunks)
                &&& final(assembler)@ == #[trigger] spec_feed(old(assembler)@, chunks)
            }),
{
    let ghost v0 = assembler@;
    let ghost mut trace: Seq<Seq<u8>> = Seq::empty();
    loop
        invariant
            assembler@.wf(),
            assembler@.buf.len() == old(assembler)@.buf.len(),
            v0 == old(assembler)@,
            spec_feed_admissible(v0, trace),
            assembler@ == spec_feed(v0, trace),
        decreases timeout.budget(),
    {
        let ghost pre = assembler@;
        let step = assembler.read(reader);
        proof {
            if step is Ok {
                let c = choose|chunks: Seq<Seq<u8>>|
                    chunks.len() > 0 && spec_feed_admissible(pre, chunks) && assembler@
                        == #[trigger] spec_feed(pre, chunks);
                lemma_feed_admissible_concat(v0, trace, c);
                lemma_feed_concat(v0, trace, c);
                trace = trace + c;
            }
        }
        match step {
            Ok(true) => {
                return Ok(());
            },
            Ok(false) => {},
            Err(e) => {
                return Err(Some(e));
            },
        }
        if timeout.expired() {
            return Err(None);
        }
    }
}

impl<const BUFFER_SIZE: usize> ProtocolMaster<BUFFER_SIZE> {
    pub fn new(config: ProtocolMasterConfig) -> (r: Self)
        requires
            BUFFER_SIZE >= 2,
        ensures
            r@.echo_back == config.echo_back,
            r@.reader.wf(),
            r@.reader.state == ReaderState::Marker1,
            r@.reader.buf.len() == BUFFER_SIZE,
    {
        Self { config, reader: ProtocolReader::new() }
    }

    /// One read exchange: transmits a read-register command for
    /// `buffer.len()` bytes at `address` on device `id`, discards the
    /// echoed command when configured to (the first completed frame is
    /// dropped unvalidated; validation applies to a frame completed
    /// strictly after it), assembles the response, and
    /// validates it — the checksum must verify, the responder id must
    /// match, and the payload must hold a status byte plus exactly
    /// `buffer.len()` data bytes, which are copied into `buffer`.
    pub fn read_register<R: StreamReader, W: StreamWriter, T: TimeoutPredicate>(
        &mut self,
        reader: &mut R,
        writer: &mut W,
        id: u8,
        address: u8,
        buffer: &mut Vec<u8>,
        timeout: &mut T,
    ) -> (r: Result<(), ProtocolHandlerError<R::Error, W::Error>>)
        requires
            old(self)@.reader.wf(),
            old(buffer)@.len() <= 255,
        ensures
            final(self)@.reader.wf(),
            final(self)@.reader.buf.len() == old(self)@.reader.buf.len(),
            final(self)@.echo_back == old(self)@.echo_back,
            final(buffer)@.len() == old(buffer)@.len(),
            r matches Ok(_) && old(self)@.echo_back ==> exists|
                chunks1: Seq<Seq<u8>>,
                chunks2: Seq<Seq<u8>>,
            |
                ({
                    &&& spec_feed_admissible(old(self)@.reader, chunks1)
                    &&& (#[trigger] spec_feed(old(self)@.reader, chunks1)).state
                        == ReaderState::Completed
                    &&& chunks2.len() > 0
                    &&& spec_feed_admissible(spec_feed(old(self)@.reader, chunks1), chunks2)
                    &&& final(self)@.reader == #[trigger] spec_feed(
                        spec_feed(old(self)@.reader, chunks1),
                        chunks2,
                    )
                }),
            r matches Ok(_) ==> ({
                let region = final(self)@.reader.region();
                &&& final(self)@.reader.state == ReaderState::Completed
                &&& spec_verify_ok(region)
                &&& spec_id(region) == id
                &&& spec_payload(region).len() == old(buffer)@.len() + 1
                &&& final(buffer)@ == spec_payload(region).skip(1)
            }),
            r matches Err(ProtocolHandlerError::UnexpectedPacketId(rid)) ==> ({
                let region = final(self)@.reader.region();
                &&& final(self)@.reader.state == ReaderState::Completed
                &&& spec_verify_ok(region)
                &&& rid == spec_id(region)
                &&& rid != id
                &&& final(buffer)@ == old(buffer)@
            }),
            r matches Err(ProtocolHandlerError::UnexpectedLength(l)) ==> ({
                let region = final(self)@.reader.region();
                &&& final(self)@.reader.state == ReaderState::Completed
                &&& spec_verify_ok(region)
                &&& spec_id(region) == id
                &&& l == spec_payload(region).len()
                &&& l != old(buffer)@.len() + 1
                &&& final(buffer)@ == old(buffer)@
            }),
            r matches Err(ProtocolHandlerError::PacketError(_)) ==> ({
                let region = final(self)@.reader.region();
                &&& final(self)@.reader.state == ReaderState::Completed
                &&& (!spec_verify_ok(region) || spec_length(region) == 0)
                &&& final(buffer)@ == old(buffer)@
            }),
            r matches Err(e) && !(e is UnexpectedPacketId) && !(e is UnexpectedLength) && !(e
                is PacketError) ==> final(buffer)@ == old(buffer)@,
            !(r matches Err(e) && e is ReaderError),
    {
        let command = ReadRegisterCommand::new(id, address, buffer.len() as u8);
        match transmit_all(writer, command.raw.as_slice(), timeout) {
            Ok(()) => {},
            Err(Some(e)) => {
                return Err(ProtocolHandlerError::WriterError(e));
            },
            Err(None) => {
                return Err(ProtocolHandlerError::TimedOut);
            },
        }
        let ghost pre_echo = self.reader@;
        if self.config.echo_back {
            // Discard the echoed command frame; the response is a frame
            // completed strictly after this one.
            match await_frame(&mut self.reader, reader, timeout) {
                Ok(()) => {},
                Err(Some(e)) => {
                    return Err(ProtocolHandlerError::ProtocolReaderError(e));
                },
                Err(None) => {
                    return Err(ProtocolHandlerError::TimedOut);
                },
            }
        }
        let ghost mid = self.reader@;
        match await_frame(&mut self.reader, reader, timeout) {
            Ok(()) => {},
            Err(Some(e)) => {
                return Err(ProtocolHandlerError::ProtocolReaderError(e));
            },
            Err(None) => {
                return Err(ProtocolHandlerError::TimedOut);
            },
        }
        let packet = self.reader.packet().unwrap();
        match packet.verify_checksum() {
            Ok(()) => {},
            Err(e) => {
                return Err(ProtocolHandlerError::PacketError(e));
            },
        }
        let response_id = match packet.id() {
            Ok(i) => i,
            Err(e) => {
                return Err(ProtocolHandlerError::PacketError(e));
            },
        };
        if response_id != id {
            return Err(ProtocolHandlerError::UnexpectedPacketId(response_id));
        }
        let data = match packet.data() {
            Ok(d) => d,
            Err(e) => {
                return Err(ProtocolHandlerError::PacketError(e));
            },
        };
        if data.len() != buffer.len() + 1 {
            return Err(ProtocolHandlerError::UnexpectedLength(data.len()));
        }
        // Strip the status byte and copy the data bytes out.
        let mut i: usize = 1;
        while i < data.len()
            invariant
                1 <= i <= data@.len(),
                buffer@.len() == data@.len() - 1,
                forall|j: int| 0 <= j < i - 1 ==> buffer@[j] == data@[j + 1],
            decreases data@.len() - i,
        {
            let b = data[i];
            buffer[i - 1] = b;
            i = i + 1;
        }
        proof {
            assert(buffer@ =~= data@.skip(1));
        }
        proof {
            if self.config.echo_back {
                let t1 = choose|chunks: Seq<Seq<u8>>|
                    ({
                        &&& chunks.len() > 0
                        &&& spec_feed_admissible(pre_echo, chunks)
                        &&& mid == #[trigger] spec_feed(pre_echo, chunks)
                    });
                let t2 = choose|chunks: Seq<Seq<u8>>|
                    ({
                        &&& chunks.len() > 0
                        &&& spec_feed_admissible(mid, chunks)
                        &&& self.reader@ == #[trigger] spec_feed(mid, chunks)
                    });
                assert(spec_feed_admissible(old(self)@.reader, t1));
                assert(spec_feed(old(self)@.reader, t1) == mid);
                assert(spec_feed_admissible(spec_feed(old(self)@.reader, t1), t2));
                assert(self.reader@ == spec_feed(spec_feed(old(self)@.reader, t1), t2));
            }
        }
        Ok(())
    }

    /// One write exchange: transmits a prepared write-register command
    /// frame (whose payload and checksum the caller has filled in),
    /// discards the echoed command when configured to (the first
    /// completed frame is dropped unvalidated), assembles the
    /// response, and validates the checksum and the responder id.  The
    /// response's payload content is deliberately not inspected.
    pub fn write_register<
        R: StreamReader,
        W: StreamWriter,
        T: TimeoutPredicate,
        const SIZE: usize,
    >(
        &mut self,
        reader: &mut R,
        writer: &mut W,
        command: &WriteRegisterCommand<SIZE>,
        timeout: &mut T,
    ) -> (r: Result<(), ProtocolHandlerError<R::Error, W::Error>>)
        requires
            old(self)@.reader.wf(),
            command.wf(),
        ensures
            final(self)@.reader.wf(),
            final(self)@.reader.buf.len() == old(self)@.reader.buf.len(),
            final(self)@.echo_back == old(self)@.echo_back,
            r matches Ok(_) && old(self)@.echo_back ==> exists|
                chunks1: Seq<Seq<u8>>,
                chunks2: Seq<Seq<u8>>,
            |
                ({
                    &&& spec_feed_admissible(old(self)@.reader, chunks1)
                    &&& (#[trigger] spec_feed(old(self)@.reader, chunks1)).state
                        == ReaderState::Completed
                    &&& chunks2.len() > 0
                    &&& spec_feed_admissible(spec_feed(old(self)@.reader, chunks1), chunks2)
                    &&& final(self)@.reader == #[trigger] spec_feed(
                        spec_feed(old(self)@.reader, chunks1),
                        chunks2,
                    )
                }),
            r matches Ok(_) ==> ({
                let region = final(self)@.reader.region();
                &&& final(self)@.reader.state == ReaderState::Completed
                &&& spec_verify_ok(region)
                &&& spec_id(region) == command.raw@[2]
            }),
            r matches Err(ProtocolHandlerError::UnexpectedPacketId(rid)) ==> ({
                let region = final(self)@.reader.region();
                &&& final(self)@.reader.state == ReaderState::Completed
                &&& spec_verify_ok(region)
                &&& rid == spec_id(region)
                &&& rid != command.raw@[2]
            }),
            r matches Err(ProtocolHandlerError::PacketError(_)) ==> ({
                let region = final(self)@.reader.region();
                &&& final(self)@.reader.state == ReaderState::Completed
                &&& !spec_verify_ok(region)
            }),
            !(r matches Err(e) && e is ReaderError),
            !(r matches Err(e) && e is UnexpectedLength),
    {
        let frame = command.packet();
        match transmit_all(writer, frame, timeout) {
            Ok(()) => {},
            Err(Some(e)) => {
                return Err(ProtocolHandlerError::WriterError(e));
            },
            Err(None) => {
                return Err(ProtocolHandlerError::TimedOut);
            },
        }
        let ghost pre_echo = self.reader@;
        if self.config.echo_back {
            // Discard the echoed command frame; the response is a frame
            // completed strictly after this one.
            match await_frame(&mut self.reader, reader, timeout) {
                Ok(()) => {},
                Err(Some(e)) => {
                    return Err(ProtocolHandlerError::ProtocolReaderError(e));
                },
                Err(None) => {
                    return Err(ProtocolHandlerError::TimedOut);
                },
            }
        }
        let ghost mid = self.reader@;
        match await_frame(&mut self.reader, reader, timeout) {
            Ok(()) => {},
            Err(Some(e)) => {
                return Err(ProtocolHandlerError::ProtocolReaderError(e));
            },
            Err(None) => {
                return Err(ProtocolHandlerError::TimedOut);
            },
        }
        let packet = self.reader.packet().unwrap();
        match packet.verify_checksum() {
            Ok(()) => {},
            Err(e) => {
                return Err(ProtocolHandlerError::PacketError(e));
            },
        }
        let response_id = match packet.id() {
            Ok(i) => i,
            Err(e) => {
                return Err(ProtocolHandlerError::PacketError(e));
            },
        };
        let expected_id = match command.reader().id() {
            Ok(i) => i,
            Err(e) => {
                return Err(ProtocolHandlerError::PacketError(e));
            },
        };
        if response_id != expected_id {
            return Err(ProtocolHandlerError::UnexpectedPacketId(response_id));
        }
        proof {
            if self.config.echo_back {
                let t1 = choose|chunks: Seq<Seq<u8>>|
                    ({
                        &&& chunks.len() > 0
                        &&& spec_feed_admissible(pre_echo, chunks)
                        &&& mid == #[trigger] spec_feed(pre_echo, chunks)
                    });
                let t2 = choose|chunks: Seq<Seq<u8>>|
                    ({
                        &&& chunks.len() > 0
                        &&& spec_feed_admissible(mid, chunks)
                        &&& self.reader@ == #[trigger] spec_feed(mid, chunks)
                    });
                assert(spec_feed_admissible(old(self)@.reader, t1));
                assert(spec_feed(old(self)@.reader, t1) == mid);
                assert(spec_feed_admissible(spec_feed(old(self)@.reader, t1), t2));
                assert(self.reader@ == spec_feed(spec_feed(old(self)@.reader, t1), t2));
            }
        }
        Ok(())
    }
}

} // verus!
