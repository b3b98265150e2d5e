//! Frame assembler tests: synchronisation, garbage tolerance, split
//! reads, back-to-back frames and the capacity rejection.

use scs_servo::protocol::ProtocolReader;
use scs_servo::protocol::ProtocolReaderError;
use scs_servo::protocol::StreamWrapper;

#[test]
fn test_protocol_reader() {
    let mut reader = ProtocolReader::<8>::new();
    let raw = [0xff, 0xff, 0x01, 0x05, 0x03, 0x2a, 0x00, 0x14, 0xb8];
    let mut stream = StreamWrapper::new(raw.to_vec());

    let result = reader.read(&mut stream);
    assert!(result.unwrap());
    let packet = reader.packet().unwrap();
    assert!(packet.verify_checksum().is_ok());
    assert_eq!(packet.id().unwrap(), 0x01);
    assert_eq!(packet.length().unwrap(), 0x05);
    assert_eq!(packet.data().unwrap(), &[0x03, 0x2a, 0x00, 0x14]);
}

#[test]
fn test_protocol_reader_insuffucient_buffer() {
    let mut reader = ProtocolReader::<5>::new();
    let raw = [0xff, 0xff, 0x01, 0x05, 0x03, 0x2a, 0x00, 0x14, 0xb8];
    let mut stream = StreamWrapper::new(raw.to_vec());

    let result = reader.read(&mut stream);
    match result {
        Err(ProtocolReaderError::InsufficientBuffer) => {}
        _ => panic!("Unexpected result: {:?}", result),
    }
}

#[test]
fn test_protocol_reader_two_phase() {
    let mut reader = ProtocolReader::<8>::new();
    let raw = [0xff, 0xff, 0x01, 0x05, 0x03, 0x2a, 0x00, 0x14, 0xb8];
    let mut stream = StreamWrapper::new(raw[0..4].to_vec());

    let result = reader.read(&mut stream);
    assert!(!result.unwrap());

    let mut stream = StreamWrapper::new(raw[4..].to_vec());
    let result = reader.read(&mut stream);
    assert!(result.unwrap());

    let packet = reader.packet().unwrap();
    assert!(packet.verify_checksum().is_ok());
    assert_eq!(packet.id().unwrap(), 0x01);
    assert_eq!(packet.length().unwrap(), 0x05);
    assert_eq!(packet.data().unwrap(), &[0x03, 0x2a, 0x00, 0x14]);
}

#[test]
fn test_protocol_reader_garbages() {
    let mut reader = ProtocolReader::<8>::new();
    let raw = [0x01, 0xff, 0x00, 0xff, 0xff, 0x01, 0x05, 0x03, 0x2a, 0x00, 0x14, 0xb8];
    let mut stream = StreamWrapper::new(raw.to_vec());

    let result = reader.read(&mut stream);
    assert!(result.unwrap());

    let packet = reader.packet().unwrap();
    assert!(packet.verify_checksum().is_ok());
    assert_eq!(packet.id().unwrap(), 0x01);
    assert_eq!(packet.length().unwrap(), 0x05);
    assert_eq!(packet.data().unwrap(), &[0x03, 0x2a, 0x00, 0x14]);
}

#[test]
fn test_protocol_reader_two_packets() {
    let mut reader = ProtocolReader::<8>::new();
    let raw = [
        0xff, 0xff, 0x01, 0x05, 0x03, 0x2a, 0x00, 0x14, 0xb8, 0xff, 0xff, 0x01, 0x05, 0x03, 0x2a,
        0x00, 0x14, 0xb8,
    ];
    let mut stream = StreamWrapper::new(raw.to_vec());

    let result = reader.read(&mut stream);
    assert!(result.unwrap());

    let packet = reader.packet().unwrap();
    assert!(packet.verify_checksum().is_ok());
    assert_eq!(packet.id().unwrap(), 0x01);
    assert_eq!(packet.length().unwrap(), 0x05);
    assert_eq!(packet.data().unwrap(), &[0x03, 0x2a, 0x00, 0x14]);

    let result = reader.read(&mut stream);
    assert!(result.unwrap());

    let packet = reader.packet().unwrap();
    assert!(packet.verify_checksum().is_ok());
    assert_eq!(packet.id().unwrap(), 0x01);
    assert_eq!(packet.length().unwrap(), 0x05);
    assert_eq!(packet.data().unwrap(), &[0x03, 0x2a, 0x00, 0x14]);
}

#[test]
fn test_protocol_reader_two_packets_with_garbage() {
    let mut reader = ProtocolReader::<8>::new();
    let raw = [
        0xff, 0xff, 0x01, 0x05, 0x03, 0x2a, 0x00, 0x14, 0xb8, 0x00, 0xff, 0x01, 0xff, 0xff, 0x01,
        0x05, 0x03, 0x2a, 0x00, 0x14, 0xb8,
    ];
    let mut stream = StreamWrapper::new(raw.to_vec());

    let result = reader.read(&mut stream);
    assert!(result.unwrap());

    let packet = reader.packet().unwrap();
    assert!(packet.verify_checksum().is_ok());
    assert_eq!(packet.id().unwrap(), 0x01);
    assert_eq!(packet.length().unwrap(), 0x05);
    assert_eq!(packet.data().unwrap(), &[0x03, 0x2a, 0x00, 0x14]);

    let result = reader.read(&mut stream);
    assert!(result.unwrap());

    let packet = reader.packet().unwrap();
    assert!(packet.verify_checksum().is_ok());
    assert_eq!(packet.id().unwrap(), 0x01);
    assert_eq!(packet.length().unwrap(), 0x05);
    assert_eq!(packet.data().unwrap(), &[0x03, 0x2a, 0x00, 0x14]);
}

#[test]
fn test_protocol_reader_byte_by_byte() {
    // Split reads: feeding a frame one byte per call yields the same
    // frame as a single complete read.
    let mut reader = ProtocolReader::<8>::new();
    let raw = [0xff, 0xff, 0x01, 0x05, 0x03, 0x2a, 0x00, 0x14, 0xb8];
    let mut completions = 0;
    for i in 0..raw.len() {
        let mut stream = StreamWrapper::new(vec![raw[i]]);
        if reader.read(&mut stream).unwrap() {
            completions += 1;
        }
    }
    assert_eq!(completions, 1);
    let packet = reader.packet().unwrap();
    assert!(packet.verify_checksum().is_ok());
    assert_eq!(packet.id().unwrap(), 0x01);
    assert_eq!(packet.data().unwrap(), &[0x03, 0x2a, 0x00, 0x14]);
}

#[test]
fn test_protocol_reader_recovers_after_capacity_error() {
    // The capacity rejection does not corrupt the machine: it keeps
    // scanning and a later frame that fits is still assembled.
    let mut reader = ProtocolReader::<5>::new();
    let raw = [0xff, 0xff, 0x01, 0x05, 0x03, 0x2a, 0x00, 0x14, 0xb8];
    let mut stream = StreamWrapper::new(raw.to_vec());
    assert!(matches!(reader.read(&mut stream), Err(ProtocolReaderError::InsufficientBuffer)));

    // A short frame that fits: id 1, length 2, payload [0x07], checksum.
    let checksum = !(1u8.wrapping_add(2).wrapping_add(0x07));
    let next = vec![0x00, 0x00, 0xff, 0xff, 0x01, 0x02, 0x07, checksum];
    let mut stream = StreamWrapper::new(next);
    let mut found_valid = false;
    for _ in 0..8 {
        match reader.read(&mut stream) {
            Ok(true) => {
                let packet = reader.packet().unwrap();
                if packet.verify_checksum().is_ok() {
                    assert_eq!(packet.id().unwrap(), 0x01);
                    assert_eq!(packet.data().unwrap(), &[0x07]);
                    found_valid = true;
                    break;
                }
            }
            Ok(false) => break,
            Err(_) => {}
        }
    }
    assert!(found_valid);
}

#[test]
fn test_partial_marker_survives_would_block() {
    // A marker pair split across a would-block boundary still syncs:
    // the one-marker-seen state is preserved while the source has
    // nothing to offer, and the frame completes once the rest arrives.
    let mut reader = ProtocolReader::<8>::new();
    let mut stream = StreamWrapper::new(vec![0x01, 0xff]);
    // Consumes the garbage byte and the first marker, then drains.
    assert!(!reader.read(&mut stream).unwrap());
    // Polls on an empty source must not lose the partial marker.
    let mut empty = StreamWrapper::new(vec![]);
    assert!(!reader.read(&mut empty).unwrap());
    assert!(!reader.read(&mut empty).unwrap());
    // The second marker and the frame region arrive later.
    let checksum = !(1u8.wrapping_add(2).wrapping_add(0x07));
    let mut rest = StreamWrapper::new(vec![0xff, 0x01, 0x02, 0x07, checksum]);
    assert!(reader.read(&mut rest).unwrap());
    let packet = reader.packet().unwrap();
    assert!(packet.verify_checksum().is_ok());
    assert_eq!(packet.id().unwrap(), 0x01);
    assert_eq!(packet.data().unwrap(), &[0x07]);
}

#[test]
fn test_capacity_rejection_rearms_scanning() {
    // The insufficient-capacity rejection drops back to marker
    // scanning: a following valid frame is assembled cleanly.
    let mut reader = ProtocolReader::<5>::new();
    let mut stream = StreamWrapper::new(vec![0xff, 0xff, 0x01, 0x05]);
    assert!(matches!(reader.read(&mut stream), Err(ProtocolReaderError::InsufficientBuffer)));
    let checksum = !(1u8.wrapping_add(2).wrapping_add(0x07));
    let mut rest = StreamWrapper::new(vec![0xff, 0xff, 0x01, 0x02, 0x07, checksum]);
    assert!(reader.read(&mut rest).unwrap());
    let packet = reader.packet().unwrap();
    assert!(packet.verify_checksum().is_ok());
    assert_eq!(packet.id().unwrap(), 0x01);
    assert_eq!(packet.data().unwrap(), &[0x07]);
}
