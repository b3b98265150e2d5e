//! The slave side of an exchange: a three-state responder, driven by
//! repeated polls, that assembles a command frame, asks a
//! caller-supplied handler for the response, and drains that response
//! onto the byte sink across as many polls as the transport needs.

use vstd::prelude::*;
use crate::packet::spec_verify_ok;
use crate::protocol::master::ProtocolHandlerError;
use crate::protocol::reader::ProtocolReader;
use crate::protocol::reader::ReaderState;
use crate::protocol::reader::ReaderView;
use crate::protocol::reader::spec_feed;
use crate::protocol::reader::spec_feed_admissible;
use crate::protocol::stream::StreamError;
use crate::protocol::stream::StreamReader;
use crate::protocol::stream::StreamWriter;

verus! {

/// Slave-wide configuration; currently empty.
#[derive(Debug)]
pub struct ProtocolSlaveConfig {}

/// The responder's state.
#[derive(Clone, Copy, Debug, PartialEq, Eq, Structural)]
pub enum ProtocolSlaveState {
    /// Waiting for a command frame to complete.
    Idle,
    /// A command frame stands in the assembler, to be handled.
    ProcessCommand,
    /// A staged response is being drained onto the sink.
    SendResponse,
}

/// The state of a slave, as the contracts speak of it: the responder
/// state, the assembler, and the staged response with its send cursor.
pub ghost struct SlaveView {
    pub state: ProtocolSlaveState,
    pub reader: ReaderView,
    pub response: Seq<u8>,
    pub response_pos: int,
}

impl SlaveView {
    pub open spec fn wf(self) -> bool {
        &&& self.reader.wf()
        &&& (self.state == ProtocolSlaveState::ProcessCommand ==> self.reader.state
            == ReaderState::Completed)
        &&& 0 <= self.response_pos <= self.response.len()
    }
}

/// The slave endpoint: a frame assembler for commands, and a staging
/// buffer for the response being sent, with the offset reached so far.
pub struct ProtocolSlave<const BUFFER_SIZE: usize> {
    #[allow(dead_code)]
    config: ProtocolSlaveConfig,
    reader: ProtocolReader<BUFFER_SIZE>,
    response_buffer: Vec<u8>,
    response_position: usize,
    state: ProtocolSlaveState,
}

impl<const BUFFER_SIZE: usize> View for ProtocolSlave<BUFFER_SIZE> {
    type V = SlaveView;

    closed spec fn view(&self) -> SlaveView {
        SlaveView {
            state: self.state,
            reader: self.reader@,
            response: self.response_buffer@,
            response_pos: self.response_position as int,
        }
    }
}

impl<const BUFFER_SIZE: usize> ProtocolSlave<BUFFER_SIZE> {
    pub fn new(config: ProtocolSlaveConfig) -> (r: Self)
        requires
            BUFFER_SIZE >= 2,
        ensures
            r@.wf(),
            r@.state == ProtocolSlaveState::Idle,
            r@.reader.state == ReaderState::Marker1,
            r@.reader.buf.len() == BUFFER_SIZE,
            r@.response_pos == 0,
    {
        Self {
            config,
            reader: ProtocolReader::new(),
            response_buffer: Vec::new(),
            response_position: 0,
            state: ProtocolSlaveState::Idle,
        }
    }

    /// Abandons any exchange in progress and waits for the next
    /// command.
    pub fn reset(&mut self)
        requires
            old(self)@.wf(),
        ensures
            final(self)@.wf(),
            final(self)@.state == ProtocolSlaveState::Idle,
            final(self)@.reader == old(self)@.reader,
            final(self)@.response == old(self)@.response,
            final(self)@.response_pos == old(self)@.response_pos,
    {
        self.state = ProtocolSlaveState::Idle;
    }

    /// One poll of the responder.  In `Idle` it polls the assembler; a
    /// completed frame advances to `ProcessCommand`.  There the frame's
    /// checksum is verified — a mismatch silently drops the frame — and
    /// the handler is asked; `None` (not addressed to this device)
    /// drops the frame, `Some(response)` stages the response and
    /// advances to `SendResponse`.  There as many staged bytes as the
    /// sink accepts are written, resuming at the reached offset on
    /// subsequent polls, until the response is drained.
    pub fn process<R: StreamReader, W: StreamWriter, PacketHandler: Fn(Vec<u8>) -> Option<
        Vec<u8>,
    >>(
        &mut self,
        reader: &mut R,
        writer: &mut W,
        handler: PacketHandler,
    ) -> (r: Result<(), ProtocolHandlerError<R::Error, W::Error>>)
        requires
            old(self)@.wf(),
            forall|v: Vec<u8>| call_requires(handler, (v,)),
        ensures
            final(self)@.wf(),
            final(self)@.reader.buf.len() == old(self)@.reader.buf.len(),
            old(self)@.state == ProtocolSlaveState::Idle ==> ({
                &&& final(self)@.response == old(self)@.response
                &&& final(self)@.response_pos == old(self)@.response_pos
                &&& (r matches Ok(_) ==> exists|chunks: Seq<Seq<u8>>|
                    spec_feed_admissible(old(self)@.reader, chunks) && final(self)@.reader
                        == #[trigger] spec_feed(old(self)@.reader, chunks))
                &&& (r matches Ok(_) ==> ((final(self)@.state == ProtocolSlaveState::ProcessCommand
                    <==> final(self)@.reader.state == ReaderState::Completed) && (final(self)@.state
                    == ProtocolSlaveState::Idle || final(self)@.state
                    == ProtocolSlaveState::ProcessCommand)))
                &&& (r matches Err(_) ==> final(self)@.state == ProtocolSlaveState::Idle)
            }),
            old(self)@.state == ProtocolSlaveState::ProcessCommand ==> ({
                let region = old(self)@.reader.region();
                &&& r matches Ok(_)
                &&& final(self)@.reader == old(self)@.reader
                &&& (!spec_verify_ok(region) ==> final(self)@.state == ProtocolSlaveState::Idle
                    && final(self)@.response == old(self)@.response && final(self)@.response_pos
                    == old(self)@.response_pos)
                &&& (spec_verify_ok(region) ==> exists|arg: Vec<u8>, out: Option<Vec<u8>>|
                    {
                        &&& arg@ == region
                        &&& #[trigger] call_ensures(handler, (arg,), out)
                        &&& match out {
                            Option::None => ({
                                &&& final(self)@.state == ProtocolSlaveState::Idle
                                &&& final(self)@.response == old(self)@.response
                                &&& final(self)@.response_pos == old(self)@.response_pos
                            }),
                            Option::Some(v) => ({
                                &&& final(self)@.state == ProtocolSlaveState::SendResponse
                                &&& final(self)@.response == v@
                                &&& final(self)@.response_pos == 0
                            }),
                        }
                    })
            }),
            old(self)@.state == ProtocolSlaveState::SendResponse ==> ({
                &&& final(self)@.reader == old(self)@.reader
                &&& final(self)@.response == old(self)@.response
                &&& old(self)@.response_pos <= final(self)@.response_pos
                &&& final(self)@.response_pos <= final(self)@.response.len()
                &&& (r matches Ok(_) ==> ({
                    &&& (final(self)@.state == ProtocolSlaveState::Idle
                        <==> final(self)@.response_pos == final(self)@.response.len())
                    &&& (final(self)@.state == ProtocolSlaveState::Idle
                        || final(self)@.state == ProtocolSlaveState::SendResponse)
                }))
                &&& (r matches Err(_) ==> final(self)@.state == ProtocolSlaveState::SendResponse)
            }),
    {
        match self.state {
            ProtocolSlaveState::Idle => {
                match self.reader.read(reader) {
                    Ok(true) => {
                        self.state = ProtocolSlaveState::ProcessCommand;
                    },
                    Ok(false) => {},
                    Err(e) => {
                        return Err(ProtocolHandlerError::ProtocolReaderError(e));
                    },
                }
                Ok(())
            },
            ProtocolSlaveState::ProcessCommand => {
                let verified = {
                    let packet = self.reader.packet().unwrap();
                    packet.verify_checksum().is_ok()
                };
                if !verified {
                    // A corrupted command is ignored, not faulted on.
                    self.state = ProtocolSlaveState::Idle;
                } else {
                    let frame = self.reader.completed_frame();
                    match handler(frame) {
                        Some(response) => {
                            self.response_buffer = response;
                            self.response_position = 0;
                            self.state = ProtocolSlaveState::SendResponse;
                        },
                        None => {
                            self.state = ProtocolSlaveState::Idle;
                        },
                    }
                }
                Ok(())
            },
            ProtocolSlaveState::SendResponse => {
                let mut paused = false;
                while self.response_position < self.response_buffer.len() && !paused
                    invariant
                        self@.wf(),
                        old(self)@.state == ProtocolSlaveState::SendResponse,
                        self.state == ProtocolSlaveState::SendResponse,
                        self@.reader == old(self)@.reader,
                        self@.response == old(self)@.response,
                        old(self)@.response_pos <= self@.response_pos <= self@.response.len(),
                    decreases (if paused {
                        0int
                    } else {
                        1int
                    }), self.response_buffer@.len() - self.response_position,
                {
                    let n = self.response_buffer.len();
                    let part = vstd::slice::slice_subrange(
                        self.response_buffer.as_slice(),
                        self.response_position,
                        n,
                    );
                    let bytes_to_write = n - self.response_position;
                    match writer.write(part) {
                        Ok(bytes_written) => {
                            self.response_position = self.response_position + bytes_written;
                            if bytes_written != bytes_to_write {
                                paused = true;
                            }
                        },
                        Err(StreamError::WouldBlock) => {
                            paused = true;
                        },
                        Err(StreamError::Other(e)) => {
                            return Err(ProtocolHandlerError::WriterError(e));
                        },
                    }
                }
                if self.response_position == self.response_buffer.len() {
                    self.state = ProtocolSlaveState::Idle;
                }
                Ok(())
            },
        }
    }
}

} // verus!
