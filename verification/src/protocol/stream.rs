//! The byte-stream and timeout capabilities the protocol engine is
//! polymorphic over, and in-memory implementations of them.
//!
//! Concrete transports (a serial port, a browser stream, an in-process
//! buffer) each implement just the minimal non-blocking read/write
//! capability; the engine never names a transport type.

use vstd::prelude::*;

verus! {

/// A non-blocking byte-stream failure: either the would-block signal
/// ("no bytes can be moved right now, try again"), or a transport error
/// of the stream's own type.
#[derive(Debug)]
pub enum StreamError<E> {
    WouldBlock,
    Other(E),
}

/// A non-blocking byte source.
pub trait StreamReader {
    type Error;

    /// Reads up to `max_len` bytes.  Returns the bytes actually read
    /// (possibly none), the would-block signal, or a transport error.
    fn read(&mut self, max_len: usize) -> (r: Result<Vec<u8>, StreamError<Self::Error>>)
        ensures
            r matches Ok(v) ==> v@.len() <= max_len,
    ;
}

/// A non-blocking byte sink.
pub trait StreamWriter {
    type Error;

    /// Writes a prefix of `data`.  Returns how many bytes were accepted
    /// (at most `data.len()`), the would-block signal, or a transport
    /// error.
    fn write(&mut self, data: &[u8]) -> (r: Result<usize, StreamError<Self::Error>>)
        ensures
            r matches Ok(n) ==> n <= data@.len(),
    ;
}

/// A caller-supplied timeout predicate, polled once per retry iteration
/// of an exchange.
///
/// `budget` is the (ghost) number of polls the predicate may still
/// answer "not expired": every poll either reports expiry or consumes
/// budget.  This is what bounds the engine's retry loops; a wall-clock
/// implementation keeps a generous poll countdown beside its deadline.
pub trait TimeoutPredicate {
    spec fn budget(&self) -> nat;

    /// Reports whether the operation's time budget has been exceeded.
    fn expired(&mut self) -> (b: bool)
        ensures
            !b ==> final(self).budget() < old(self).budget(),
    ;
}

/// A timeout predicate that reports expiry after a fixed number of
/// polls, independent of any clock.
pub struct PollBudget {
    remaining: u64,
}

impl PollBudget {
    pub fn new(polls: u64) -> (r: Self)
        ensures
            r.budget() == polls,
    {
        Self { remaining: polls }
    }
}

impl TimeoutPredicate for PollBudget {
    closed spec fn budget(&self) -> nat {
        self.remaining as nat
    }

    fn expired(&mut self) -> (b: bool)
        ensures
            !b ==> final(self).budget() < old(self).budget(),
            b <==> old(self).budget() == 0,
    {
        if self.remaining == 0 {
            true
        } else {
            self.remaining = self.remaining - 1;
            false
        }
    }
}

/// An in-memory byte-stream endpoint: a buffered cursor.
///
/// As a source it hands out its bytes in order from the cursor; as a
/// sink it appends to the end of its buffer.  It stands in for an
/// in-process transport and is what the tests drive the engine with.
pub struct StreamWrapper {
    data: Vec<u8>,
    position: usize,
}

impl StreamWrapper {
    /// The bytes not yet consumed by reads.
    pub closed spec fn pending(&self) -> Seq<u8> {
        if self.position <= self.data@.len() {
            self.data@.skip(self.position as int)
        } else {
            Seq::empty()
        }
    }

    /// Everything the wrapper holds, consumed or not.
    pub closed spec fn contents(&self) -> Seq<u8> {
        self.data@
    }

    pub fn new(data: Vec<u8>) -> (r: Self)
        ensures
            r.pending() == data@,
            r.contents() == data@,
    {
        proof {
            assert(data@.skip(0) =~= data@);
        }
        Self { data, position: 0 }
    }

    /// Hands the underlying buffer back (for a sink: everything written).
    pub fn into_inner(self) -> (r: Vec<u8>)
        ensures
            r@ == self.contents(),
    {
        self.data
    }
}

impl StreamReader for StreamWrapper {
    type Error = ();

    /// Hands out the next `min(max_len, pending)` bytes.
    fn read(&mut self, max_len: usize) -> (r: Result<Vec<u8>, StreamError<()>>)
        ensures
            r matches Ok(v) ==> v@.len() <= max_len,
            r matches Ok(v) ==> ({
                &&& v@ == old(self).pending().take(v@.len() as int)
                &&& final(self).pending() == old(self).pending().skip(v@.len() as int)
                &&& v@.len() == (if max_len <= old(self).pending().len() {
                    max_len as int
                } else {
                    old(self).pending().len() as int
                })
            }),
    {
        let remaining = if self.position <= self.data.len() {
            self.data.len() - self.position
        } else {
            0
        };
        let count = if max_len <= remaining {
            max_len
        } else {
            remaining
        };
        let mut out: Vec<u8> = Vec::new();
        if count > 0 {
            let mut i: usize = 0;
            while i < count
                invariant
                    i <= count,
                    self.position + count <= usize::MAX,
                    self.position + count <= self.data@.len(),
                    out@ =~= self.data@.subrange(self.position as int, self.position + i),
                decreases count - i,
            {
                out.push(self.data[self.position + i]);
                proof {
                    assert(out@ =~= self.data@.subrange(
                        self.position as int,
                        self.position + i + 1,
                    ));
                }
                i = i + 1;
            }
        }
        self.position = self.position + count;
        proof {
            assert(out@ =~= old(self).pending().take(count as int));
            assert(self.pending() =~= old(self).pending().skip(count as int));
        }
        Ok(out)
    }
}

impl StreamWriter for StreamWrapper {
    type Error = ();

    /// Appends all of `data` to the buffer.
    fn write(&mut self, data: &[u8]) -> (r: Result<usize, StreamError<()>>)
        ensures
            r matches Ok(n) ==> n <= data@.len(),
            r matches Ok(n) ==> ({
                &&& n == data@.len()
                &&& final(self).contents() == old(self).contents() + data@
            }),
    {
        let mut i: usize = 0;
        while i < data.len()
            invariant
                i <= data@.len(),
                self.data@ =~= old(self).data@ + data@.take(i as int),
                self.position == old(self).position,
            decreases data@.len() - i,
        {
            let b = data[i];
            self.data.push(b);
            proof {
                assert(self.data@ =~= old(self).data@ + data@.take(i + 1));
            }
            i = i + 1;
        }
        proof {
            assert(data@.take(data@.len() as int) =~= data@);
        }
        Ok(data.len())
    }
}

} // verus!
