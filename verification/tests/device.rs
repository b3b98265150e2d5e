//! Control facade tests: register metadata, cached readings, and the
//! typed register operations over precomputed response streams.

use std::cell::Cell;

use scs_servo::device::scs0009::register_list;
use scs_servo::device::scs0009::Scs0009ServoControl;
use scs_servo::device::scs0009::REGISTER_ID_ADDRESS;
use scs_servo::device::Error;
use scs_servo::device::Instant;
use scs_servo::device::RegisterStorage;
use scs_servo::device::Timer;
use scs_servo::packet::PacketWriter;
use scs_servo::protocol::ProtocolMasterConfig;
use scs_servo::protocol::StreamWrapper;

/// A deterministic clock: every elapsed query advances by one
/// millisecond, so a facade timeout of N milliseconds expires after N
/// polls.
struct TickingInstant {
    calls: Cell<u64>,
}

impl Instant for TickingInstant {
    fn elapsed(&self) -> u64 {
        let c = self.calls.get() + 1;
        self.calls.set(c);
        c
    }
}

struct TickingClock;

impl Timer for TickingClock {
    type Instant = TickingInstant;

    fn now() -> TickingInstant {
        TickingInstant { calls: Cell::new(0) }
    }
}

/// A full response frame from device `id` whose payload is the status
/// byte followed by `data`.
fn make_response(id: u8, data: &[u8]) -> Vec<u8> {
    let mut writer = PacketWriter::new(vec![0u8; data.len() + 4]);
    writer.set_id(id).unwrap();
    writer.set_length((data.len() + 2) as u8).unwrap();
    writer.set_data(0, 0).unwrap();
    for (i, b) in data.iter().enumerate() {
        writer.set_data(i + 1, *b).unwrap();
    }
    writer.update_checksum().unwrap();
    let mut frame = vec![0xff, 0xff];
    frame.extend_from_slice(&writer.into_inner());
    frame
}

fn make_control(
    responses: Vec<u8>,
) -> Scs0009ServoControl<StreamWrapper, StreamWrapper, TickingClock> {
    Scs0009ServoControl::new(
        0x01,
        StreamWrapper::new(responses),
        StreamWrapper::new(vec![]),
        ProtocolMasterConfig { echo_back: false },
        200,
    )
}

#[test]
fn test_register_list_metadata() {
    let list = register_list();
    assert_eq!(list.len(), 34);
    let id_register = list
        .iter()
        .find(|r| r.address == REGISTER_ID_ADDRESS)
        .unwrap();
    assert!(matches!(id_register.storage, RegisterStorage::Eeprom));
    assert!(id_register.readable);
    assert!(id_register.writable);
    assert_eq!(id_register.default, Some(0x00));
    assert_eq!(id_register.description, "ID");
}

#[test]
fn test_scs0009_position_limits() {
    let mut responses = make_response(0x01, &[0x00, 0x1f]);
    responses.extend_from_slice(&make_response(0x01, &[0x03, 0xff]));
    let mut control = make_control(responses);
    assert_eq!(control.id(), 0x01);
    assert_eq!(control.position_lower_limit().unwrap(), 0x001f);
    assert_eq!(control.position_upper_limit().unwrap(), 0x03ff);
}

#[test]
fn test_scs0009_current_values_cache() {
    // Before any update, readings are NotUpdated; after an update they
    // come from the cached block; they stay cached until the next
    // update.
    let mut responses = make_response(
        0x01,
        &[0x45, 0x67, 0x89, 0xab, 0x01, 0x23, 0x07, 0x08],
    );
    responses.extend_from_slice(&make_response(
        0x01,
        &[0xfe, 0xdc, 0x00, 0x08, 0xcd, 0xef, 0x07, 0x08],
    ));
    let mut control = make_control(responses);

    assert!(matches!(control.current_load(), Err(Error::NotUpdated)));
    assert!(matches!(control.current_position(), Err(Error::NotUpdated)));
    assert!(matches!(control.current_speed(), Err(Error::NotUpdated)));

    control.update().unwrap();
    assert_eq!(control.current_position().unwrap(), 0x4567);
    // 0x89ab is 32768 + 0x09ab: the negated-magnitude speed encoding.
    assert_eq!(control.current_speed().unwrap(), -0x09ab);
    assert_eq!(control.current_load().unwrap(), 0x0123);

    // Still the same values until updated again.
    assert_eq!(control.current_position().unwrap(), 0x4567);

    control.update().unwrap();
    assert_eq!(control.current_position().unwrap(), 0xfedc);
    assert_eq!(control.current_speed().unwrap(), 0x0008);
    assert_eq!(control.current_load().unwrap(), 0xcdef);
}

#[test]
fn test_scs0009_set_id_readdresses() {
    // set_id acknowledged by the device under the old id readdresses
    // the facade to the new id.
    let responses = make_response(0x01, &[]);
    let mut control = make_control(responses);
    control.set_id(0x02).unwrap();
    assert_eq!(control.id(), 0x02);
}

#[test]
fn test_scs0009_set_id_failure_keeps_id() {
    // With no acknowledgement the write times out and the facade keeps
    // its id.
    let mut control = make_control(vec![]);
    assert!(control.set_id(0x02).is_err());
    assert_eq!(control.id(), 0x01);
}

#[test]
fn test_scs0009_target_position_round_trip() {
    // A write acknowledged, then a read answering the written value.
    let mut responses = make_response(0x01, &[]);
    responses.extend_from_slice(&make_response(0x01, &[0x12, 0x34]));
    let mut control = make_control(responses);
    control.set_target_position(0x1234).unwrap();
    assert_eq!(control.target_position().unwrap(), 0x1234);
}

#[test]
fn test_scs0009_output_switch_commands() {
    // The torque switch writes are acknowledged exchanges; what was
    // transmitted is checked at the exchange level elsewhere.
    let mut responses = make_response(0x01, &[]);
    responses.extend_from_slice(&make_response(0x01, &[]));
    let mut control = make_control(responses);
    control.output_enable().unwrap();
    control.output_disable().unwrap();
}

#[test]
fn test_scs0009_speed_range() {
    let control = make_control(vec![]);
    assert_eq!(control.min_speed(), 0);
    assert_eq!(control.max_speed(), 0x7fff);
    assert_eq!(control.max_period(), 0xffff);
}
