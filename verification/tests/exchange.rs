//! Master/slave exchange tests: end-to-end read-register flows, echo
//! discarding, timeout behaviour, and the slave's silent handling of
//! corrupted or foreign frames.

use scs_servo::packet::PacketReader;
use scs_servo::packet::PacketWriter;
use scs_servo::protocol::Command;
use scs_servo::protocol::PollBudget;
use scs_servo::protocol::ProtocolHandlerError;
use scs_servo::protocol::ProtocolMaster;
use scs_servo::protocol::ProtocolMasterConfig;
use scs_servo::protocol::ProtocolSlave;
use scs_servo::protocol::ProtocolSlaveConfig;
use scs_servo::protocol::ReadRegisterCommand;
use scs_servo::protocol::StreamWrapper;
use scs_servo::protocol::WriteRegisterCommand;

/// The responder of the tests: answers a read of registers
/// `0x10 + i` with value `0x10 + i`, for device id 1.
fn register_echo_handler(frame: Vec<u8>) -> Option<Vec<u8>> {
    let packet = PacketReader::new(&frame);
    if packet.id().unwrap() != 0x01 {
        return None;
    }
    let data = packet.data().unwrap().to_vec();
    if data[0] == Command::ReadRegister.code() {
        let start = data[1];
        let length = data[2];
        let mut writer = PacketWriter::new(vec![0u8; length as usize + 4]);
        writer.set_id(0x01).unwrap();
        writer.set_length(1 + length + 1).unwrap();
        writer.set_data(0, 0).unwrap();
        for i in 0..length {
            writer.set_data(i as usize + 1, start + i).unwrap();
        }
        writer.update_checksum().unwrap();
        let mut response = vec![0xff, 0xff];
        response.extend_from_slice(&writer.into_inner());
        Some(response)
    } else if data[0] == Command::WriteRegister.code() {
        let mut writer = PacketWriter::new(vec![0u8; 4]);
        writer.set_id(0x01).unwrap();
        writer.set_length(2).unwrap();
        writer.set_data(0, 0).unwrap();
        writer.update_checksum().unwrap();
        let mut response = vec![0xff, 0xff];
        response.extend_from_slice(&writer.into_inner());
        Some(response)
    } else {
        None
    }
}

/// Runs the slave over one incoming byte stream and hands back what it
/// wrote.
fn run_slave(input: Vec<u8>) -> Vec<u8> {
    let mut slave = ProtocolSlave::<256>::new(ProtocolSlaveConfig {});
    let mut reader = StreamWrapper::new(input);
    let mut writer = StreamWrapper::new(vec![]);
    for _ in 0..8 {
        slave
            .process(&mut reader, &mut writer, register_echo_handler)
            .unwrap();
    }
    writer.into_inner()
}

#[test]
fn test_protocol_master() {
    // End-to-end: the slave answers the exact command frame the master
    // sends, and the master validates and unpacks the response.
    let command = ReadRegisterCommand::new(0x01, 0x10, 4);
    let response = run_slave(command.raw.clone());

    let mut master = ProtocolMaster::<256>::new(ProtocolMasterConfig { echo_back: false });
    let mut reader = StreamWrapper::new(response);
    let mut writer = StreamWrapper::new(vec![]);
    let mut buffer = vec![0u8; 4];
    let mut timeout = PollBudget::new(1000);
    let result = master.read_register(&mut reader, &mut writer, 0x01, 0x10, &mut buffer, &mut timeout);
    assert!(result.is_ok(), "Error: {:?}", result);
    assert_eq!(buffer, vec![0x10, 0x11, 0x12, 0x13]);
    // The bytes the master transmitted are exactly the command frame.
    assert_eq!(writer.into_inner(), command.raw);

    let command = ReadRegisterCommand::new(0x01, 0x20, 4);
    let response = run_slave(command.raw.clone());
    let mut reader = StreamWrapper::new(response);
    let mut writer = StreamWrapper::new(vec![]);
    let mut timeout = PollBudget::new(1000);
    let result = master.read_register(&mut reader, &mut writer, 0x01, 0x20, &mut buffer, &mut timeout);
    assert!(result.is_ok(), "Error: {:?}", result);
    assert_eq!(buffer, vec![0x20, 0x21, 0x22, 0x23]);
}

#[test]
fn test_read_register_with_echo_back() {
    // With echo_back set, the transport loops the command frame back
    // before the real response; the master discards it and still
    // returns the same data.
    let command = ReadRegisterCommand::new(0x01, 0x10, 4);
    let response = run_slave(command.raw.clone());
    let mut looped = command.raw.clone();
    looped.extend_from_slice(&response);

    let mut master = ProtocolMaster::<256>::new(ProtocolMasterConfig { echo_back: true });
    let mut reader = StreamWrapper::new(looped);
    let mut writer = StreamWrapper::new(vec![]);
    let mut buffer = vec![0u8; 4];
    let mut timeout = PollBudget::new(1000);
    let result = master.read_register(&mut reader, &mut writer, 0x01, 0x10, &mut buffer, &mut timeout);
    assert!(result.is_ok(), "Error: {:?}", result);
    assert_eq!(buffer, vec![0x10, 0x11, 0x12, 0x13]);
}

#[test]
fn test_read_register_timeout() {
    // Timeout: no response ever arrives, so the exchange fails with
    // the timed-out error — never with an id or length mismatch.
    let mut master = ProtocolMaster::<256>::new(ProtocolMasterConfig { echo_back: false });
    let mut reader = StreamWrapper::new(vec![]);
    let mut writer = StreamWrapper::new(vec![]);
    let mut buffer = vec![0u8; 4];
    let mut timeout = PollBudget::new(16);
    let result = master.read_register(&mut reader, &mut writer, 0x01, 0x10, &mut buffer, &mut timeout);
    assert!(matches!(result, Err(ProtocolHandlerError::TimedOut)));
    assert_eq!(buffer, vec![0u8; 4]);
}

#[test]
fn test_read_register_timeout_on_partial_response() {
    // Expiry in the middle of an incomplete response frame is still
    // the timed-out error, not a mismatch.
    let mut master = ProtocolMaster::<256>::new(ProtocolMasterConfig { echo_back: false });
    let mut reader = StreamWrapper::new(vec![0xff, 0xff, 0x01, 0x06, 0x00]);
    let mut writer = StreamWrapper::new(vec![]);
    let mut buffer = vec![0u8; 4];
    let mut timeout = PollBudget::new(16);
    let result = master.read_register(&mut reader, &mut writer, 0x01, 0x10, &mut buffer, &mut timeout);
    assert!(matches!(result, Err(ProtocolHandlerError::TimedOut)));
}

#[test]
fn test_read_register_unexpected_id() {
    // A verifying response from the wrong device id is rejected.
    let mut writer = PacketWriter::new(vec![0u8; 8]);
    writer.set_id(0x02).unwrap();
    writer.set_length(6).unwrap();
    writer.set_data(0, 0).unwrap();
    writer.set_data(1, 0x10).unwrap();
    writer.set_data(2, 0x11).unwrap();
    writer.set_data(3, 0x12).unwrap();
    writer.set_data(4, 0x13).unwrap();
    writer.update_checksum().unwrap();
    let mut response = vec![0xff, 0xff];
    response.extend_from_slice(&writer.into_inner());

    let mut master = ProtocolMaster::<256>::new(ProtocolMasterConfig { echo_back: false });
    let mut reader = StreamWrapper::new(response);
    let mut sink = StreamWrapper::new(vec![]);
    let mut buffer = vec![0u8; 4];
    let mut timeout = PollBudget::new(1000);
    let result = master.read_register(&mut reader, &mut sink, 0x01, 0x10, &mut buffer, &mut timeout);
    assert!(matches!(result, Err(ProtocolHandlerError::UnexpectedPacketId(0x02))));
}

#[test]
fn test_read_register_unexpected_length() {
    // A verifying response with the wrong payload length is rejected.
    let mut writer = PacketWriter::new(vec![0u8; 6]);
    writer.set_id(0x01).unwrap();
    writer.set_length(4).unwrap();
    writer.set_data(0, 0).unwrap();
    writer.set_data(1, 0x10).unwrap();
    writer.set_data(2, 0x11).unwrap();
    writer.update_checksum().unwrap();
    let mut response = vec![0xff, 0xff];
    response.extend_from_slice(&writer.into_inner());

    let mut master = ProtocolMaster::<256>::new(ProtocolMasterConfig { echo_back: false });
    let mut reader = StreamWrapper::new(response);
    let mut sink = StreamWrapper::new(vec![]);
    let mut buffer = vec![0u8; 4];
    let mut timeout = PollBudget::new(1000);
    let result = master.read_register(&mut reader, &mut sink, 0x01, 0x10, &mut buffer, &mut timeout);
    assert!(matches!(result, Err(ProtocolHandlerError::UnexpectedLength(3))));
}

#[test]
fn test_read_register_checksum_mismatch() {
    // A response with a corrupted checksum is a packet error.
    let command = ReadRegisterCommand::new(0x01, 0x10, 4);
    let mut response = run_slave(command.raw.clone());
    let last = response.len() - 1;
    response[last] ^= 0x01;

    let mut master = ProtocolMaster::<256>::new(ProtocolMasterConfig { echo_back: false });
    let mut reader = StreamWrapper::new(response);
    let mut sink = StreamWrapper::new(vec![]);
    let mut buffer = vec![0u8; 4];
    let mut timeout = PollBudget::new(1000);
    let result = master.read_register(&mut reader, &mut sink, 0x01, 0x10, &mut buffer, &mut timeout);
    assert!(matches!(result, Err(ProtocolHandlerError::PacketError(_))));
}

#[test]
fn test_write_register_exchange() {
    // A write exchange: the caller fills the two-phase command's data
    // region and checksum, the slave acknowledges, and the master
    // accepts the matching-id response.
    let mut command = WriteRegisterCommand::<16>::new(0x01, 0x2a, 2);
    command.set_data(2, 0x12);
    command.set_data(3, 0x34);
    command.update_checksum();
    assert_eq!(command.len(), 9);
    assert_eq!(command.packet()[0..2], [0xff, 0xff]);
    assert!(command.reader().verify_checksum().is_ok());

    let response = run_slave(command.packet().to_vec());
    let mut master = ProtocolMaster::<256>::new(ProtocolMasterConfig { echo_back: false });
    let mut reader = StreamWrapper::new(response);
    let mut sink = StreamWrapper::new(vec![]);
    let mut timeout = PollBudget::new(1000);
    let result = master.write_register(&mut reader, &mut sink, &command, &mut timeout);
    assert!(result.is_ok(), "Error: {:?}", result);
    // What was transmitted is the trimmed command frame.
    assert_eq!(sink.into_inner(), command.packet().to_vec());
}

#[test]
fn test_write_register_without_checksum_is_rejected() {
    // Omitting update_checksum leaves a corrupt frame that the slave
    // silently drops: no response, so the master times out.
    let mut command = WriteRegisterCommand::<16>::new(0x01, 0x2a, 2);
    command.set_data(2, 0x12);
    command.set_data(3, 0x34);
    assert!(command.reader().verify_checksum().is_err());

    let response = run_slave(command.packet().to_vec());
    assert_eq!(response, vec![]);

    let mut master = ProtocolMaster::<256>::new(ProtocolMasterConfig { echo_back: false });
    let mut reader = StreamWrapper::new(response);
    let mut sink = StreamWrapper::new(vec![]);
    let mut timeout = PollBudget::new(16);
    let result = master.write_register(&mut reader, &mut sink, &command, &mut timeout);
    assert!(matches!(result, Err(ProtocolHandlerError::TimedOut)));
}

#[test]
fn test_slave_ignores_foreign_id() {
    // A command addressed to another device id gets no response.
    let command = ReadRegisterCommand::new(0x07, 0x10, 4);
    let response = run_slave(command.raw.clone());
    assert_eq!(response, vec![]);
}

#[test]
fn test_slave_reset_returns_to_idle() {
    // reset abandons an exchange in progress; the next frame is still
    // handled from a clean responder state.
    let command = ReadRegisterCommand::new(0x01, 0x10, 1);
    let mut slave = ProtocolSlave::<256>::new(ProtocolSlaveConfig {});
    let mut reader = StreamWrapper::new(command.raw.clone());
    let mut writer = StreamWrapper::new(vec![]);
    slave.process(&mut reader, &mut writer, register_echo_handler).unwrap();
    slave.reset();
    let mut reader = StreamWrapper::new(command.raw.clone());
    for _ in 0..8 {
        slave.process(&mut reader, &mut writer, register_echo_handler).unwrap();
    }
    let sent = writer.into_inner();
    assert!(!sent.is_empty());
    let packet = PacketReader::new(&sent[2..]);
    assert!(packet.verify_checksum().is_ok());
    assert_eq!(packet.id().unwrap(), 0x01);
    assert_eq!(packet.data().unwrap(), &[0x00, 0x10]);
}
