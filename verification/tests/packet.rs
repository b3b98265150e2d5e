//! Frame codec tests: field access, checksum computation and
//! validation, and the two-phase builder workflow.

use scs_servo::packet::PacketError;
use scs_servo::packet::PacketReader;
use scs_servo::packet::PacketWriter;

#[test]
fn test_packet_reader_valid() {
    let data = [0x01, 0x05, 0x03, 0x2a, 0x00, 0x14, 0xb8];
    let reader = PacketReader::new(&data);
    assert_eq!(reader.id_unchecked(), 0x01);
    assert_eq!(reader.length_unchecked(), 0x05);
    assert_eq!(reader.checksum_unchecked(), 0xb8);
    assert_eq!(reader.id().unwrap(), 0x01);
    assert_eq!(reader.length().unwrap(), 0x05);
    assert_eq!(reader.checksum().unwrap(), 0xb8);
    assert_eq!(reader.data().unwrap(), &[0x03, 0x2a, 0x00, 0x14]);
    assert_eq!(reader.calculate_checksum().unwrap(), 0xb8);
    assert_eq!(reader.verify_checksum().is_ok(), true);
}

#[test]
fn test_packet_reader_checksum_error() {
    let data = [0x01, 0x05, 0x03, 0x2a, 0x00, 0x14, 0xb7];
    let reader = PacketReader::new(&data);
    assert_eq!(reader.calculate_checksum().unwrap(), 0xb8);
    assert_eq!(reader.verify_checksum().is_ok(), false);
}

#[test]
fn test_packet_reader_length_error() {
    let data = [0x01, 0x00];
    let reader = PacketReader::new(&data);
    assert_eq!(reader.id().is_err(), true);
    assert_eq!(reader.length().is_err(), true);
    assert_eq!(reader.checksum().is_err(), true);
    assert_eq!(reader.data().is_err(), true);
    assert_eq!(reader.verify_checksum().is_err(), true);
}

#[test]
fn test_packet_writer_valid() {
    let mut writer = PacketWriter::new(vec![0x00; 7]);
    writer.set_id(0x01).unwrap();
    writer.set_length(0x05).unwrap();
    writer.set_data(0, 0x03).unwrap();
    writer.set_data(1, 0x2a).unwrap();
    writer.set_data(2, 0x00).unwrap();
    writer.set_data(3, 0x14).unwrap();
    writer.update_checksum().unwrap();
    assert_eq!(writer.id_unchecked(), 0x01);
    assert_eq!(writer.length_unchecked(), 0x05);
    assert_eq!(writer.checksum_unchecked(), 0xb8);
    assert_eq!(writer.id().unwrap(), 0x01);
    assert_eq!(writer.length().unwrap(), 0x05);
    assert_eq!(writer.checksum().unwrap(), 0xb8);
    assert_eq!(writer.data().unwrap(), &[0x03, 0x2a, 0x00, 0x14]);
    assert_eq!(writer.calculate_checksum().unwrap(), 0xb8);
    let data = writer.into_inner();
    // check with reader
    let reader = PacketReader::new(&data);
    assert_eq!(reader.id_unchecked(), 0x01);
    assert_eq!(reader.length_unchecked(), 0x05);
    assert_eq!(reader.data().unwrap(), &[0x03, 0x2a, 0x00, 0x14]);
    assert_eq!(reader.verify_checksum().is_ok(), true);
}

#[test]
fn test_round_trip_all_small_payload_lengths() {
    // Round trip: build a frame for every payload length from 1 to 254
    // and check it decodes to the same id, length and payload, with a
    // verifying checksum.
    for payload_len in 1usize..=254 {
        let mut writer = PacketWriter::new(vec![0u8; payload_len + 3]);
        writer.set_id(0x11).unwrap();
        writer.set_length((payload_len + 1) as u8).unwrap();
        for i in 0..payload_len {
            writer.set_data(i, (i % 251) as u8).unwrap();
        }
        writer.update_checksum().unwrap();
        let data = writer.into_inner();
        let reader = PacketReader::new(&data);
        assert_eq!(reader.id().unwrap(), 0x11);
        assert_eq!(reader.length().unwrap(), (payload_len + 1) as u8);
        let payload = reader.data().unwrap();
        assert_eq!(payload.len(), payload_len);
        for i in 0..payload_len {
            assert_eq!(payload[i], (i % 251) as u8);
        }
        assert!(reader.verify_checksum().is_ok());
    }
}

#[test]
fn test_checksum_single_bit_flips_detected() {
    // Checksum sensitivity: flipping any single bit of the stored
    // checksum byte makes verification fail.
    let good = [0x01, 0x05, 0x03, 0x2a, 0x00, 0x14, 0xb8];
    for bit in 0..8 {
        let mut bad = good;
        bad[6] ^= 1u8 << bit;
        let reader = PacketReader::new(&bad);
        assert!(matches!(reader.verify_checksum(), Err(PacketError::InvalidChecksum)));
    }
}

#[test]
fn test_update_checksum_restores_after_mutation() {
    // Mutating the payload invalidates the frame; recomputing with
    // update_checksum restores verification.
    let mut writer = PacketWriter::new(vec![0x01, 0x05, 0x03, 0x2a, 0x00, 0x14, 0xb8]);
    writer.set_data(1, 0x7f).unwrap();
    {
        let data = writer.into_inner();
        let reader = PacketReader::new(&data);
        assert!(reader.verify_checksum().is_err());
        writer = PacketWriter::new(data);
    }
    writer.update_checksum().unwrap();
    let data = writer.into_inner();
    let reader = PacketReader::new(&data);
    assert!(reader.verify_checksum().is_ok());
    assert_eq!(reader.data().unwrap(), &[0x03, 0x7f, 0x00, 0x14]);
}

#[test]
fn test_writer_rejects_inconsistent_regions() {
    // A declared length that reads past the region's end is a length
    // error for the writer's checked accessors.
    let mut writer = PacketWriter::new(vec![0x01, 0x09, 0x03]);
    assert!(matches!(writer.id(), Err(PacketError::InvalidLength)));
    assert!(matches!(writer.set_id(0x02), Err(PacketError::InvalidLength)));
    assert!(matches!(writer.update_checksum(), Err(PacketError::InvalidLength)));
    // A region under three bytes is a header error.
    let mut short = PacketWriter::new(vec![0x01, 0x02]);
    assert!(matches!(short.id(), Err(PacketError::InvalidHeader)));
    assert!(matches!(short.set_length(1), Err(PacketError::InvalidHeader)));
    // An out-of-range payload index is a length error.
    let mut ok = PacketWriter::new(vec![0x01, 0x05, 0x03, 0x2a, 0x00, 0x14, 0xb8]);
    assert!(matches!(ok.set_data(4, 0x00), Err(PacketError::InvalidLength)));
}
