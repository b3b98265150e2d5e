//! Tests with custom transport implementations: error propagation and
//! a sink that trickles bytes, forcing the slave to resume a partially
//! sent response across polls.

use scs_servo::packet::PacketReader;
use scs_servo::protocol::PollBudget;
use scs_servo::protocol::ProtocolHandlerError;
use scs_servo::protocol::ProtocolMaster;
use scs_servo::protocol::ProtocolMasterConfig;
use scs_servo::protocol::ProtocolReader;
use scs_servo::protocol::ProtocolReaderError;
use scs_servo::protocol::ProtocolSlave;
use scs_servo::protocol::ProtocolSlaveConfig;
use scs_servo::protocol::ReadRegisterCommand;
use scs_servo::protocol::StreamError;
use scs_servo::protocol::StreamReader;
use scs_servo::protocol::StreamWrapper;
use scs_servo::protocol::StreamWriter;

/// A source that always fails with a transport error.
struct BrokenSource;

impl StreamReader for BrokenSource {
    type Error = &'static str;

    fn read(&mut self, _max_len: usize) -> Result<Vec<u8>, StreamError<&'static str>> {
        Err(StreamError::Other("line down"))
    }
}

/// A source that answers would-block forever.
struct SilentSource;

impl StreamReader for SilentSource {
    type Error = ();

    fn read(&mut self, _max_len: usize) -> Result<Vec<u8>, StreamError<()>> {
        Err(StreamError::WouldBlock)
    }
}

/// A sink that accepts one byte per call.
struct TrickleSink {
    written: Vec<u8>,
}

impl StreamWriter for TrickleSink {
    type Error = ();

    fn write(&mut self, data: &[u8]) -> Result<usize, StreamError<()>> {
        if data.is_empty() {
            Ok(0)
        } else {
            self.written.push(data[0]);
            Ok(1)
        }
    }
}

#[test]
fn test_reader_transport_error_propagates() {
    let mut assembler = ProtocolReader::<8>::new();
    let mut source = BrokenSource;
    let result = assembler.read(&mut source);
    assert!(matches!(
        result,
        Err(ProtocolReaderError::ReaderError("line down"))
    ));
}

#[test]
fn test_master_propagates_transport_error() {
    let mut master = ProtocolMaster::<16>::new(ProtocolMasterConfig { echo_back: false });
    let mut source = BrokenSource;
    let mut sink = StreamWrapper::new(vec![]);
    let mut buffer = vec![0u8; 2];
    let mut timeout = PollBudget::new(100);
    let result = master.read_register(&mut source, &mut sink, 0x01, 0x03, &mut buffer, &mut timeout);
    assert!(matches!(
        result,
        Err(ProtocolHandlerError::ProtocolReaderError(ProtocolReaderError::ReaderError(
            "line down"
        )))
    ));
}

#[test]
fn test_would_block_absorbed_until_timeout() {
    // Would-block signals never surface as errors: they only show up
    // as elapsed time against the timeout predicate.
    let mut master = ProtocolMaster::<16>::new(ProtocolMasterConfig { echo_back: false });
    let mut source = SilentSource;
    let mut sink = StreamWrapper::new(vec![]);
    let mut buffer = vec![0u8; 2];
    let mut timeout = PollBudget::new(10);
    let result = master.read_register(&mut source, &mut sink, 0x01, 0x03, &mut buffer, &mut timeout);
    assert!(matches!(result, Err(ProtocolHandlerError::TimedOut)));
}

#[test]
fn test_slave_resumes_partial_response() {
    // The slave drains its staged response one byte per poll on a
    // trickling sink, resuming from the reached offset each time, and
    // the full well-formed response comes out in order.
    let command = ReadRegisterCommand::new(0x01, 0x10, 2);
    let mut slave = ProtocolSlave::<64>::new(ProtocolSlaveConfig {});
    let mut reader = StreamWrapper::new(command.raw.clone());
    let mut sink = TrickleSink { written: vec![] };

    let handler = |frame: Vec<u8>| -> Option<Vec<u8>> {
        let packet = PacketReader::new(&frame);
        if packet.id().unwrap() != 0x01 {
            return None;
        }
        // Respond with status 0 and the two register values.
        let mut response = vec![0xff, 0xff, 0x01, 0x04, 0x00, 0x10, 0x11, 0x00];
        let mut sum = 0u8;
        for b in &response[2..7] {
            sum = sum.wrapping_add(*b);
        }
        response[7] = !sum;
        Some(response)
    };

    // One poll to assemble, one to handle, then one per response byte.
    for _ in 0..12 {
        slave.process(&mut reader, &mut sink, handler).unwrap();
    }
    assert_eq!(sink.written.len(), 8);
    let packet = PacketReader::new(&sink.written[2..]);
    assert!(packet.verify_checksum().is_ok());
    assert_eq!(packet.id().unwrap(), 0x01);
    assert_eq!(packet.data().unwrap(), &[0x00, 0x10, 0x11]);
}
