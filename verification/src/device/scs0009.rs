//! The control facade for one servo model: its register map and
//! typed read/write operations built on the protocol master.

use vstd::prelude::*;
use core::marker::PhantomData;
use crate::device::ElapsedTimeout;
use crate::device::Error;
use crate::device::RegisterDefinition;
use crate::device::RegisterStorage;
use crate::device::Timer;
use crate::packet::spec_id;
use crate::packet::spec_payload;
use crate::packet::spec_verify_ok;
use crate::protocol::command::WriteRegisterCommand;
use crate::protocol::master::ProtocolHandlerError;
use crate::protocol::master::ProtocolMaster;
use crate::protocol::master::ProtocolMasterConfig;
use crate::protocol::stream::StreamReader;
use crate::protocol::stream::StreamWriter;

verus! {

pub const REGISTER_VERSION_H_ADDRESS: u8 = 0x03;
pub const REGISTER_VERSION_L_ADDRESS: u8 = 0x04;
pub const REGISTER_ID_ADDRESS: u8 = 0x05;
pub const REGISTER_BAUD_RATE_ADDRESS: u8 = 0x06;
pub const REGISTER_RESPONSE_TIME_ADDRESS: u8 = 0x07;
pub const REGISTER_RESPONSE_ENABLE_ADDRESS: u8 = 0x08;
pub const REGISTER_LOWER_POSITION_LIMIT_H_ADDRESS: u8 = 0x09;
pub const REGISTER_LOWER_POSITION_LIMIT_L_ADDRESS: u8 = 0x0a;
pub const REGISTER_UPPER_POSITION_LIMIT_H_ADDRESS: u8 = 0x0b;
pub const REGISTER_UPPER_POSITION_LIMIT_L_ADDRESS: u8 = 0x0c;
pub const REGISTER_UPPER_TEMPERATURE_LIMIT_ADDRESS: u8 = 0x0d;
pub const REGISTER_MAX_INPUT_VOLTAGE_ADDRESS: u8 = 0x0e;
pub const REGISTER_MIN_INPUT_VOLTAGE_ADDRESS: u8 = 0x0f;
pub const REGISTER_MAX_TORQUE_H_ADDRESS: u8 = 0x10;
pub const REGISTER_MAX_TORQUE_L_ADDRESS: u8 = 0x11;
pub const REGISTER_HIGH_VOLTAGE_FLAG_ADDRESS: u8 = 0x12;
pub const REGISTER_ALARM_FLAG_ADDRESS: u8 = 0x13;
pub const REGISTER_LED_ALARM_FLAG_ADDRESS: u8 = 0x14;
pub const REGISTER_TORQUE_SWITCH_ADDRESS: u8 = 0x28;
pub const REGISTER_TARGET_POSITION_H_ADDRESS: u8 = 0x2a;
pub const REGISTER_TARGET_POSITION_L_ADDRESS: u8 = 0x2b;
pub const REGISTER_TARGET_PERIOD_H_ADDRESS: u8 = 0x2c;
pub const REGISTER_TARGET_PERIOD_L_ADDRESS: u8 = 0x2d;
pub const REGISTER_TARGET_SPEED_H_ADDRESS: u8 = 0x2e;
pub const REGISTER_TARGET_SPEED_L_ADDRESS: u8 = 0x2f;
pub const REGISTER_EEPROM_LOCK_ADDRESS: u8 = 0x30;
pub const REGISTER_CURRENT_POSITION_H_ADDRESS: u8 = 0x38;
pub const REGISTER_CURRENT_POSITION_L_ADDRESS: u8 = 0x39;
pub const REGISTER_CURRENT_SPEED_H_ADDRESS: u8 = 0x3a;
pub const REGISTER_CURRENT_SPEED_L_ADDRESS: u8 = 0x3b;
pub const REGISTER_CURRENT_LOAD_H_ADDRESS: u8 = 0x3c;
pub const REGISTER_CURRENT_LOAD_L_ADDRESS: u8 = 0x3d;
pub const REGISTER_CURRENT_VOLTAGE_ADDRESS: u8 = 0x3e;
pub const REGISTER_CURRENT_TEMPERATURE_ADDRESS: u8 = 0x3f;

/// The register map as the contracts state it: for each register its
/// address, storage class, readability, writability and default value
/// (the descriptive text is not part of the contract).
pub open spec fn spec_register_table() -> Seq<(u8, RegisterStorage, bool, bool, Option<u8>)> {
    seq![
        (REGISTER_VERSION_H_ADDRESS, RegisterStorage::Eeprom, true, false, Option::None),
        (REGISTER_VERSION_L_ADDRESS, RegisterStorage::Eeprom, true, false, Option::None),
        (REGISTER_ID_ADDRESS, RegisterStorage::Eeprom, true, true, Option::Some(0x00u8)),
        (REGISTER_BAUD_RATE_ADDRESS, RegisterStorage::Eeprom, true, true, Option::Some(0x00u8)),
        (REGISTER_RESPONSE_TIME_ADDRESS, RegisterStorage::Eeprom, true, true, Option::Some(0x00u8)),
        (REGISTER_RESPONSE_ENABLE_ADDRESS, RegisterStorage::Eeprom, true, true, Option::Some(0x01u8)),
        (REGISTER_LOWER_POSITION_LIMIT_H_ADDRESS, RegisterStorage::Eeprom, true, true, Option::Some(0x00u8)),
        (REGISTER_LOWER_POSITION_LIMIT_L_ADDRESS, RegisterStorage::Eeprom, true, true, Option::Some(0x00u8)),
        (REGISTER_UPPER_POSITION_LIMIT_H_ADDRESS, RegisterStorage::Eeprom, true, true, Option::Some(0x03u8)),
        (REGISTER_UPPER_POSITION_LIMIT_L_ADDRESS, RegisterStorage::Eeprom, true, true, Option::Some(0xffu8)),
        (REGISTER_UPPER_TEMPERATURE_LIMIT_ADDRESS, RegisterStorage::Eeprom, true, true, Option::Some(0x50u8)),
        (REGISTER_MAX_INPUT_VOLTAGE_ADDRESS, RegisterStorage::Eeprom, true, true, Option::Some(0xfau8)),
        (REGISTER_MIN_INPUT_VOLTAGE_ADDRESS, RegisterStorage::Eeprom, true, true, Option::Some(0x32u8)),
        (REGISTER_MAX_TORQUE_H_ADDRESS, RegisterStorage::Eeprom, true, true, Option::Some(0x03u8)),
        (REGISTER_MAX_TORQUE_L_ADDRESS, RegisterStorage::Eeprom, true, true, Option::Some(0xffu8)),
        (REGISTER_HIGH_VOLTAGE_FLAG_ADDRESS, RegisterStorage::Eeprom, true, true, Option::Some(0x00u8)),
        (REGISTER_ALARM_FLAG_ADDRESS, RegisterStorage::Eeprom, true, true, Option::Some(0x25u8)),
        (REGISTER_LED_ALARM_FLAG_ADDRESS, RegisterStorage::Eeprom, true, true, Option::Some(0x25u8)),
        (REGISTER_TORQUE_SWITCH_ADDRESS, RegisterStorage::Ram, true, true, Option::Some(0x00u8)),
        (REGISTER_TARGET_POSITION_H_ADDRESS, RegisterStorage::Ram, true, true, Option::None),
        (REGISTER_TARGET_POSITION_L_ADDRESS, RegisterStorage::Ram, true, true, Option::None),
        (REGISTER_TARGET_PERIOD_H_ADDRESS, RegisterStorage::Ram, true, true, Option::Some(0x00u8)),
        (REGISTER_TARGET_PERIOD_L_ADDRESS, RegisterStorage::Ram, true, true, Option::Some(0x00u8)),
        (REGISTER_TARGET_SPEED_H_ADDRESS, RegisterStorage::Ram, true, true, Option::Some(0x00u8)),
        (REGISTER_TARGET_SPEED_L_ADDRESS, RegisterStorage::Ram, true, true, Option::Some(0x00u8)),
        (REGISTER_EEPROM_LOCK_ADDRESS, RegisterStorage::Ram, true, true, Option::Some(0x01u8)),
        (REGISTER_CURRENT_POSITION_H_ADDRESS, RegisterStorage::Ram, true, false, Option::None),
        (REGISTER_CURRENT_POSITION_L_ADDRESS, RegisterStorage::Ram, true, false, Option::None),
        (REGISTER_CURRENT_SPEED_H_ADDRESS, RegisterStorage::Ram, true, false, Option::None),
        (REGISTER_CURRENT_SPEED_L_ADDRESS, RegisterStorage::Ram, true, false, Option::None),
        (REGISTER_CURRENT_LOAD_H_ADDRESS, RegisterStorage::Ram, true, false, Option::None),
        (REGISTER_CURRENT_LOAD_L_ADDRESS, RegisterStorage::Ram, true, false, Option::None),
        (REGISTER_CURRENT_VOLTAGE_ADDRESS, RegisterStorage::Ram, true, false, Option::None),
        (REGISTER_CURRENT_TEMPERATURE_ADDRESS, RegisterStorage::Ram, true, false, Option::None),
    ]
}

/// One register definition agrees with one table row.
pub open spec fn spec_register_matches(
    e: RegisterDefinition,
    t: (u8, RegisterStorage, bool, bool, Option<u8>),
) -> bool {
    &&& e.address == t.0
    &&& e.storage == t.1
    &&& e.readable == t.2
    &&& e.writable == t.3
    &&& e.default == t.4
}

/// The full register map of the device.
#[verifier::rlimit(60)]
pub fn register_list() -> (r: Vec<RegisterDefinition>)
    ensures
        r@.len() == 34,
        spec_register_table().len() == 34,
        forall|i: int|
            0 <= i < 34 ==> spec_register_matches(#[trigger] r@[i], spec_register_table()[i]),
{
    let mut list: Vec<RegisterDefinition> = Vec::new();
    list.push(RegisterDefinition::new(REGISTER_VERSION_H_ADDRESS, RegisterStorage::Eeprom, true, false, None, "Software Version H"));
    list.push(RegisterDefinition::new(REGISTER_VERSION_L_ADDRESS, RegisterStorage::Eeprom, true, false, None, "Software Version L"));
    list.push(RegisterDefinition::new(REGISTER_ID_ADDRESS, RegisterStorage::Eeprom, true, true, Some(0x00), "ID"));
    list.push(RegisterDefinition::new(REGISTER_BAUD_RATE_ADDRESS, RegisterStorage::Eeprom, true, true, Some(0x00), "Baud Rate"));
    list.push(RegisterDefinition::new(REGISTER_RESPONSE_TIME_ADDRESS, RegisterStorage::Eeprom, true, true, Some(0x00), "Response Time"));
    list.push(RegisterDefinition::new(REGISTER_RESPONSE_ENABLE_ADDRESS, RegisterStorage::Eeprom, true, true, Some(0x01), "Response Enable"));
    list.push(RegisterDefinition::new(REGISTER_LOWER_POSITION_LIMIT_H_ADDRESS, RegisterStorage::Eeprom, true, true, Some(0x00), "Lower Position Limit H"));
    list.push(RegisterDefinition::new(REGISTER_LOWER_POSITION_LIMIT_L_ADDRESS, RegisterStorage::Eeprom, true, true, Some(0x00), "Lower Position Limit L"));
    list.push(RegisterDefinition::new(REGISTER_UPPER_POSITION_LIMIT_H_ADDRESS, RegisterStorage::Eeprom, true, true, Some(0x03), "Upper Position Limit H"));
    list.push(RegisterDefinition::new(REGISTER_UPPER_POSITION_LIMIT_L_ADDRESS, RegisterStorage::Eeprom, true, true, Some(0xff), "Upper Position Limit L"));
    list.push(RegisterDefinition::new(REGISTER_UPPER_TEMPERATURE_LIMIT_ADDRESS, RegisterStorage::Eeprom, true, true, Some(0x50), "Upper Temperature Limit"));
    list.push(RegisterDefinition::new(REGISTER_MAX_INPUT_VOLTAGE_ADDRESS, RegisterStorage::Eeprom, true, true, Some(0xfa), "Max Input Voltage"));
    list.push(RegisterDefinition::new(REGISTER_MIN_INPUT_VOLTAGE_ADDRESS, RegisterStorage::Eeprom, true, true, Some(0x32), "Min Input Voltage"));
    list.push(RegisterDefinition::new(REGISTER_MAX_TORQUE_H_ADDRESS, RegisterStorage::Eeprom, true, true, Some(0x03), "Max Torque H"));
    list.push(RegisterDefinition::new(REGISTER_MAX_TORQUE_L_ADDRESS, RegisterStorage::Eeprom, true, true, Some(0xff), "Max Torque L"));
    list.push(RegisterDefinition::new(REGISTER_HIGH_VOLTAGE_FLAG_ADDRESS, RegisterStorage::Eeprom, true, true, Some(0x00), "High Voltage Flag"));
    list.push(RegisterDefinition::new(REGISTER_ALARM_FLAG_ADDRESS, RegisterStorage::Eeprom, true, true, Some(0x25), "Alarm Flag"));
    list.push(RegisterDefinition::new(REGISTER_LED_ALARM_FLAG_ADDRESS, RegisterStorage::Eeprom, true, true, Some(0x25), "LED Alarm Flag"));
    list.push(RegisterDefinition::new(REGISTER_TORQUE_SWITCH_ADDRESS, RegisterStorage::Ram, true, true, Some(0x00), "Torque Switch"));
    list.push(RegisterDefinition::new(REGISTER_TARGET_POSITION_H_ADDRESS, RegisterStorage::Ram, true, true, None, "Target Position H"));
    list.push(RegisterDefinition::new(REGISTER_TARGET_POSITION_L_ADDRESS, RegisterStorage::Ram, true, true, None, "Target Position L"));
    list.push(RegisterDefinition::new(REGISTER_TARGET_PERIOD_H_ADDRESS, RegisterStorage::Ram, true, true, Some(0x00), "Target Period H"));
    list.push(RegisterDefinition::new(REGISTER_TARGET_PERIOD_L_ADDRESS, RegisterStorage::Ram, true, true, Some(0x00), "Target Period L"));
    list.push(RegisterDefinition::new(REGISTER_TARGET_SPEED_H_ADDRESS, RegisterStorage::Ram, true, true, Some(0x00), "Target Speed H"));
    list.push(RegisterDefinition::new(REGISTER_TARGET_SPEED_L_ADDRESS, RegisterStorage::Ram, true, true, Some(0x00), "Target Speed L"));
    list.push(RegisterDefinition::new(REGISTER_EEPROM_LOCK_ADDRESS, RegisterStorage::Ram, true, true, Some(0x01), "EEPROM Lock"));
    list.push(RegisterDefinition::new(REGISTER_CURRENT_POSITION_H_ADDRESS, RegisterStorage::Ram, true, false, None, "Current Position H"));
    list.push(RegisterDefinition::new(REGISTER_CURRENT_POSITION_L_ADDRESS, RegisterStorage::Ram, true, false, None, "Current Position L"));
    list.push(RegisterDefinition::new(REGISTER_CURRENT_SPEED_H_ADDRESS, RegisterStorage::Ram, true, false, None, "Current Speed H"));
    list.push(RegisterDefinition::new(REGISTER_CURRENT_SPEED_L_ADDRESS, RegisterStorage::Ram, true, false, None, "Current Speed L"));
    list.push(RegisterDefinition::new(REGISTER_CURRENT_LOAD_H_ADDRESS, RegisterStorage::Ram, true, false, None, "Current Load H"));
    list.push(RegisterDefinition::new(REGISTER_CURRENT_LOAD_L_ADDRESS, RegisterStorage::Ram, true, false, None, "Current Load L"));
    list.push(RegisterDefinition::new(REGISTER_CURRENT_VOLTAGE_ADDRESS, RegisterStorage::Ram, true, false, None, "Current Voltage"));
    list.push(RegisterDefinition::new(REGISTER_CURRENT_TEMPERATURE_ADDRESS, RegisterStorage::Ram, true, false, None, "Current Temperature"));
    list
}

/// The size of the command scratch buffers one exchange needs.
pub const COMMAND_BUFFER_SIZE: usize = 16;

/// A big-endian byte pair as one 16-bit value.
pub open spec fn spec_be16(hi: u8, lo: u8) -> u16 {
    (hi * 256 + lo) as u16
}

/// The signed speed encoding of the device: values from 32768 up are
/// the negated magnitude above 32768.
pub open spec fn spec_speed(hi: u8, lo: u8) -> i16 {
    if spec_be16(hi, lo) >= 32768 {
        (-((spec_be16(hi, lo) - 32768) as i16)) as i16
    } else {
        spec_be16(hi, lo) as i16
    }
}

fn be16(hi: u8, lo: u8) -> (r: u16)
    ensures
        r == spec_be16(hi, lo),
{
    (hi as u16) * 256 + (lo as u16)
}

/// The cached block of live readings, one update's worth: position,
/// speed, load, voltage and temperature, as eight raw register bytes.
pub struct CurrentValues {
    buffer: Vec<u8>,
}

impl View for CurrentValues {
    type V = Seq<u8>;

    closed spec fn view(&self) -> Seq<u8> {
        self.buffer@
    }
}

impl CurrentValues {
    pub open spec fn wf(&self) -> bool {
        self@.len() == 8
    }

    pub fn new() -> (r: Self)
        ensures
            r.wf(),
            forall|i: int| 0 <= i < 8 ==> r@[i] == 0u8,
    {
        let mut buffer: Vec<u8> = Vec::new();
        let mut i: usize = 0;
        while i < 8
            invariant
                i <= 8,
                buffer@.len() == i,
                forall|j: int| 0 <= j < i ==> buffer@[j] == 0u8,
            decreases 8 - i,
        {
            buffer.push(0);
            i = i + 1;
        }
        Self { buffer }
    }

    pub fn position(&self) -> (r: u16)
        requires
            self.wf(),
        ensures
            r == spec_be16(self@[0], self@[1]),
    {
        be16(self.buffer[0], self.buffer[1])
    }

    pub fn speed(&self) -> (r: i16)
        requires
            self.wf(),
        ensures
            r == spec_speed(self@[2], self@[3]),
    {
        let speed = be16(self.buffer[2], self.buffer[3]);
        if speed >= 32768 {
            -((speed - 32768) as i16)
        } else {
            speed as i16
        }
    }

    pub fn load(&self) -> (r: u16)
        requires
            self.wf(),
        ensures
            r == spec_be16(self@[4], self@[5]),
    {
        be16(self.buffer[4], self.buffer[5])
    }

    pub fn voltage(&self) -> (r: u8)
        requires
            self.wf(),
        ensures
            r == self@[6],
    {
        self.buffer[6]
    }

    pub fn temperature(&self) -> (r: u8)
        requires
            self.wf(),
        ensures
            r == self@[7],
    {
        self.buffer[7]
    }
}

/// The control facade for one device: its id, the two stream
/// endpoints, the master configuration, the per-exchange timeout in
/// milliseconds, and the cached readings of the last update.
pub struct Scs0009ServoControl<R, W, T> {
    id: u8,
    reader: R,
    writer: W,
    master_config: ProtocolMasterConfig,
    timeout_ms: u64,
    current_values: Option<CurrentValues>,
    timer: PhantomData<T>,
}

impl<R, W, T> Scs0009ServoControl<R, W, T> {
    /// The device id the facade addresses.
    pub closed spec fn spec_id(&self) -> u8 {
        self.id
    }

    /// The cached readings, if an update has succeeded.
    pub closed spec fn spec_current(&self) -> Option<Seq<u8>> {
        match self.current_values {
            Option::Some(cv) => Option::Some(cv@),
            Option::None => Option::None,
        }
    }

    /// The cached readings are well-formed when present.
    pub closed spec fn inv(&self) -> bool {
        match self.current_values {
            Option::Some(cv) => cv.wf(),
            Option::None => true,
        }
    }

    pub fn new(
        id: u8,
        reader: R,
        writer: W,
        master_config: ProtocolMasterConfig,
        timeout_ms: u64,
    ) -> (r: Self)
        ensures
            r.spec_id() == id,
            r.spec_current() is None,
            r.inv(),
    {
        Self {
            id,
            reader,
            writer,
            master_config,
            timeout_ms,
            current_values: None,
            timer: PhantomData,
        }
    }
}

impl<R: StreamReader, W: StreamWriter, T: Timer> Scs0009ServoControl<R, W, T> {
    /// Reads `data.len()` consecutive registers starting at `address`
    /// into `data`, in one exchange.
    pub fn read_continuous_registers(&mut self, address: u8, data: &mut Vec<u8>) -> (r: Result<
        (),
        ProtocolHandlerError<R::Error, W::Error>,
    >)
        requires
            old(self).inv(),
            old(data)@.len() <= 255,
        ensures
            final(self).inv(),
            final(self).spec_id() == old(self).spec_id(),
            final(self).spec_current() == old(self).spec_current(),
            final(data)@.len() == old(data)@.len(),
            r matches Ok(_) ==> exists|region: Seq<u8>|
                {
                    &&& #[trigger] spec_verify_ok(region)
                    &&& spec_id(region) == old(self).spec_id()
                    &&& spec_payload(region).len() == old(data)@.len() + 1
                    &&& final(data)@ == spec_payload(region).skip(1)
                },
            r matches Err(_) ==> final(data)@ == old(data)@,
    {
        let mut master = ProtocolMaster::<COMMAND_BUFFER_SIZE>::new(self.master_config);
        let mut timeout = ElapsedTimeout::<T::Instant>::new(T::now(), self.timeout_ms);
        let result = master.read_register(
            &mut self.reader,
            &mut self.writer,
            self.id,
            address,
            data,
            &mut timeout,
        );
        match result {
            Ok(()) => Ok(()),
            Err(e) => Err(e),
        }
    }

    /// Writes `data` to the consecutive registers starting at
    /// `address`, in one exchange: builds the two-phase command, fills
    /// its payload, recomputes the checksum and runs the write.
    pub fn write_continuous_registers(&mut self, address: u8, data: &Vec<u8>) -> (r: Result<
        (),
        ProtocolHandlerError<R::Error, W::Error>,
    >)
        requires
            old(self).inv(),
            data@.len() + 7 <= COMMAND_BUFFER_SIZE,
        ensures
            final(self).inv(),
            final(self).spec_id() == old(self).spec_id(),
            final(self).spec_current() == old(self).spec_current(),
            r matches Ok(_) ==> exists|region: Seq<u8>|
                (#[trigger] spec_verify_ok(region)) && spec_id(region) == old(self).spec_id(),
    {
        let mut command = WriteRegisterCommand::<COMMAND_BUFFER_SIZE>::new(
            self.id,
            address,
            data.len(),
        );
        let mut i: usize = 0;
        while i < data.len()
            invariant
                i <= data@.len(),
                data@.len() + 7 <= COMMAND_BUFFER_SIZE,
                command.wf(),
                command.spec_len() == data@.len() + 7,
                command.raw@[2] == self.id,
                *self == *old(self),
            decreases data@.len() - i,
        {
            let b = data[i];
            command.set_data(2 + i, b);
            i = i + 1;
        }
        command.update_checksum();
        let mut master = ProtocolMaster::<COMMAND_BUFFER_SIZE>::new(self.master_config);
        let mut timeout = ElapsedTimeout::<T::Instant>::new(T::now(), self.timeout_ms);
        let result = master.write_register(&mut self.reader, &mut self.writer, &command, &mut timeout);
        match result {
            Ok(()) => {
                proof {
                    assert(spec_verify_ok(master@.reader.region()));
                }
                Ok(())
            },
            Err(e) => Err(e),
        }
    }

    /// Reads one byte-sized register.
    pub fn read_register_u8(&mut self, address: u8) -> (r: Result<
        u8,
        ProtocolHandlerError<R::Error, W::Error>,
    >)
        requires
            old(self).inv(),
        ensures
            final(self).inv(),
            final(self).spec_id() == old(self).spec_id(),
            final(self).spec_current() == old(self).spec_current(),
            r matches Ok(v) ==> exists|region: Seq<u8>|
                {
                    &&& #[trigger] spec_verify_ok(region)
                    &&& spec_id(region) == old(self).spec_id()
                    &&& spec_payload(region).len() == 2
                    &&& v == spec_payload(region)[1]
                },
    {
        let mut data: Vec<u8> = Vec::new();
        data.push(0);
        self.read_continuous_registers(address, &mut data)?;
        Ok(data[0])
    }

    /// Reads one big-endian register pair.
    pub fn read_register_u16(&mut self, address: u8) -> (r: Result<
        u16,
        ProtocolHandlerError<R::Error, W::Error>,
    >)
        requires
            old(self).inv(),
        ensures
            final(self).inv(),
            final(self).spec_id() == old(self).spec_id(),
            final(self).spec_current() == old(self).spec_current(),
            r matches Ok(v) ==> exists|region: Seq<u8>|
                {
                    &&& #[trigger] spec_verify_ok(region)
                    &&& spec_id(region) == old(self).spec_id()
                    &&& spec_payload(region).len() == 3
                    &&& v == spec_be16(spec_payload(region)[1], spec_payload(region)[2])
                },
    {
        let mut data: Vec<u8> = Vec::new();
        data.push(0);
        data.push(0);
        self.read_continuous_registers(address, &mut data)?;
        Ok(be16(data[0], data[1]))
    }

    /// Writes one byte-sized register.
    pub fn write_register_u8(&mut self, address: u8, value: u8) -> (r: Result<
        (),
        ProtocolHandlerError<R::Error, W::Error>,
    >)
        requires
            old(self).inv(),
        ensures
            final(self).inv(),
            final(self).spec_id() == old(self).spec_id(),
            final(self).spec_current() == old(self).spec_current(),
            r matches Ok(_) ==> exists|region: Seq<u8>|
                (#[trigger] spec_verify_ok(region)) && spec_id(region) == old(self).spec_id(),
    {
        let mut data: Vec<u8> = Vec::new();
        data.push(value);
        self.write_continuous_registers(address, &data)
    }

    /// Writes one big-endian register pair.
    pub fn write_register_u16(&mut self, address: u8, value: u16) -> (r: Result<
        (),
        ProtocolHandlerError<R::Error, W::Error>,
    >)
        requires
            old(self).inv(),
        ensures
            final(self).inv(),
            final(self).spec_id() == old(self).spec_id(),
            final(self).spec_current() == old(self).spec_current(),
            r matches Ok(_) ==> exists|region: Seq<u8>|
                (#[trigger] spec_verify_ok(region)) && spec_id(region) == old(self).spec_id(),
    {
        let mut data: Vec<u8> = Vec::new();
        data.push((value / 256) as u8);
        data.push((value % 256) as u8);
        self.write_continuous_registers(address, &data)
    }

    /// The device id the facade addresses.
    pub fn id(&self) -> (r: u8)
        ensures
            r == self.spec_id(),
    {
        self.id
    }

    /// Writes a new id to the device's id register and readdresses the
    /// facade to it.
    pub fn set_id(&mut self, id: u8) -> (r: Result<
        (),
        Error<ProtocolHandlerError<R::Error, W::Error>>,
    >)
        requires
            old(self).inv(),
        ensures
            final(self).inv(),
            r matches Ok(_) ==> final(self).spec_id() == id,
            r matches Err(_) ==> final(self).spec_id() == old(self).spec_id(),
            r matches Ok(_) ==> exists|region: Seq<u8>|
                (#[trigger] spec_verify_ok(region)) && spec_id(region) == old(self).spec_id(),
    {
        match self.write_register_u8(REGISTER_ID_ADDRESS, id) {
            Ok(()) => {},
            Err(e) => {
                return Err(Error::ProtocolError(e));
            },
        }
        self.id = id;
        Ok(())
    }

    /// Switches the motor output on.
    pub fn output_enable(&mut self) -> (r: Result<
        (),
        Error<ProtocolHandlerError<R::Error, W::Error>>,
    >)
        requires
            old(self).inv(),
        ensures
            final(self).inv(),
            final(self).spec_id() == old(self).spec_id(),
            final(self).spec_current() == old(self).spec_current(),
            r matches Ok(_) ==> exists|region: Seq<u8>|
                (#[trigger] spec_verify_ok(region)) && spec_id(region) == old(self).spec_id(),
    {
        match self.write_register_u8(REGISTER_TORQUE_SWITCH_ADDRESS, 0x01) {
            Ok(()) => Ok(()),
            Err(e) => Err(Error::ProtocolError(e)),
        }
    }

    /// Switches the motor output off.
    pub fn output_disable(&mut self) -> (r: Result<
        (),
        Error<ProtocolHandlerError<R::Error, W::Error>>,
    >)
        requires
            old(self).inv(),
        ensures
            final(self).inv(),
            final(self).spec_id() == old(self).spec_id(),
            final(self).spec_current() == old(self).spec_current(),
            r matches Ok(_) ==> exists|region: Seq<u8>|
                (#[trigger] spec_verify_ok(region)) && spec_id(region) == old(self).spec_id(),
    {
        match self.write_register_u8(REGISTER_TORQUE_SWITCH_ADDRESS, 0x00) {
            Ok(()) => Ok(()),
            Err(e) => Err(Error::ProtocolError(e)),
        }
    }

    /// Reads the lower position limit register pair.
    pub fn position_lower_limit(&mut self) -> (r: Result<
        u16,
        Error<ProtocolHandlerError<R::Error, W::Error>>,
    >)
        requires
            old(self).inv(),
        ensures
            final(self).inv(),
            final(self).spec_id() == old(self).spec_id(),
    {
        match self.read_register_u16(REGISTER_LOWER_POSITION_LIMIT_H_ADDRESS) {
            Ok(v) => Ok(v),
            Err(e) => Err(Error::ProtocolError(e)),
        }
    }

    /// Reads the upper position limit register pair.
    pub fn position_upper_limit(&mut self) -> (r: Result<
        u16,
        Error<ProtocolHandlerError<R::Error, W::Error>>,
    >)
        requires
            old(self).inv(),
        ensures
            final(self).inv(),
            final(self).spec_id() == old(self).spec_id(),
    {
        match self.read_register_u16(REGISTER_UPPER_POSITION_LIMIT_H_ADDRESS) {
            Ok(v) => Ok(v),
            Err(e) => Err(Error::ProtocolError(e)),
        }
    }

    /// Reads the target position register pair.
    pub fn target_position(&mut self) -> (r: Result<
        u16,
        Error<ProtocolHandlerError<R::Error, W::Error>>,
    >)
        requires
            old(self).inv(),
        ensures
            final(self).inv(),
            final(self).spec_id() == old(self).spec_id(),
    {
        match self.read_register_u16(REGISTER_TARGET_POSITION_H_ADDRESS) {
            Ok(v) => Ok(v),
            Err(e) => Err(Error::ProtocolError(e)),
        }
    }

    /// Writes the target position register pair.
    pub fn set_target_position(&mut self, position: u16) -> (r: Result<
        (),
        Error<ProtocolHandlerError<R::Error, W::Error>>,
    >)
        requires
            old(self).inv(),
        ensures
            final(self).inv(),
            final(self).spec_id() == old(self).spec_id(),
            final(self).spec_current() == old(self).spec_current(),
            r matches Ok(_) ==> exists|region: Seq<u8>|
                (#[trigger] spec_verify_ok(region)) && spec_id(region) == old(self).spec_id(),
    {
        match self.write_register_u16(REGISTER_TARGET_POSITION_H_ADDRESS, position) {
            Ok(()) => Ok(()),
            Err(e) => Err(Error::ProtocolError(e)),
        }
    }

    /// Reads the target period register pair.
    pub fn target_period(&mut self) -> (r: Result<
        u16,
        Error<ProtocolHandlerError<R::Error, W::Error>>,
    >)
        requires
            old(self).inv(),
        ensures
            final(self).inv(),
            final(self).spec_id() == old(self).spec_id(),
    {
        match self.read_register_u16(REGISTER_TARGET_PERIOD_H_ADDRESS) {
            Ok(v) => Ok(v),
            Err(e) => Err(Error::ProtocolError(e)),
        }
    }

    /// Writes the target period register pair.
    pub fn set_target_period(&mut self, period: u16) -> (r: Result<
        (),
        Error<ProtocolHandlerError<R::Error, W::Error>>,
    >)
        requires
            old(self).inv(),
        ensures
            final(self).inv(),
            final(self).spec_id() == old(self).spec_id(),
            final(self).spec_current() == old(self).spec_current(),
            r matches Ok(_) ==> exists|region: Seq<u8>|
                (#[trigger] spec_verify_ok(region)) && spec_id(region) == old(self).spec_id(),
    {
        match self.write_register_u16(REGISTER_TARGET_PERIOD_H_ADDRESS, period) {
            Ok(()) => Ok(()),
            Err(e) => Err(Error::ProtocolError(e)),
        }
    }

    /// Reads the target speed register pair.
    pub fn target_speed(&mut self) -> (r: Result<
        i16,
        Error<ProtocolHandlerError<R::Error, W::Error>>,
    >)
        requires
            old(self).inv(),
        ensures
            final(self).inv(),
            final(self).spec_id() == old(self).spec_id(),
    {
        match self.read_register_u16(REGISTER_TARGET_SPEED_H_ADDRESS) {
            Ok(v) => Ok(v as i16),
            Err(e) => Err(Error::ProtocolError(e)),
        }
    }

    /// Writes the target speed register pair.
    pub fn set_target_speed(&mut self, speed: i16) -> (r: Result<
        (),
        Error<ProtocolHandlerError<R::Error, W::Error>>,
    >)
        requires
            old(self).inv(),
        ensures
            final(self).inv(),
            final(self).spec_id() == old(self).spec_id(),
            final(self).spec_current() == old(self).spec_current(),
            r matches Ok(_) ==> exists|region: Seq<u8>|
                (#[trigger] spec_verify_ok(region)) && spec_id(region) == old(self).spec_id(),
    {
        match self.write_register_u16(REGISTER_TARGET_SPEED_H_ADDRESS, speed as u16) {
            Ok(()) => Ok(()),
            Err(e) => Err(Error::ProtocolError(e)),
        }
    }

    /// The position read by the last [`Scs0009ServoControl::update`].
    pub fn current_position(&mut self) -> (r: Result<
        u16,
        Error<ProtocolHandlerError<R::Error, W::Error>>,
    >)
        requires
            old(self).inv(),
        ensures
            *final(self) == *old(self),
            r matches Ok(p) ==> (old(self).spec_current() matches Some(cv) && p == spec_be16(
                cv[0],
                cv[1],
            )),
            old(self).spec_current() matches Some(cv) ==> r == Result::<
                u16,
                Error<ProtocolHandlerError<R::Error, W::Error>>,
            >::Ok(spec_be16(cv[0], cv[1])),
            r matches Err(e) ==> (e is NotUpdated && old(self).spec_current() is None),
    {
        match &self.current_values {
            Some(values) => Ok(values.position()),
            None => Err(Error::NotUpdated),
        }
    }

    /// The speed read by the last [`Scs0009ServoControl::update`].
    pub fn current_speed(&mut self) -> (r: Result<
        i16,
        Error<ProtocolHandlerError<R::Error, W::Error>>,
    >)
        requires
            old(self).inv(),
        ensures
            *final(self) == *old(self),
            r matches Ok(s) ==> (old(self).spec_current() matches Some(cv) && s == spec_speed(
                cv[2],
                cv[3],
            )),
            old(self).spec_current() matches Some(cv) ==> r == Result::<
                i16,
                Error<ProtocolHandlerError<R::Error, W::Error>>,
            >::Ok(spec_speed(cv[2], cv[3])),
            r matches Err(e) ==> (e is NotUpdated && old(self).spec_current() is None),
    {
        match &self.current_values {
            Some(values) => Ok(values.speed()),
            None => Err(Error::NotUpdated),
        }
    }

    /// The load read by the last [`Scs0009ServoControl::update`].
    pub fn current_load(&mut self) -> (r: Result<
        u16,
        Error<ProtocolHandlerError<R::Error, W::Error>>,
    >)
        requires
            old(self).inv(),
        ensures
            *final(self) == *old(self),
            r matches Ok(l) ==> (old(self).spec_current() matches Some(cv) && l == spec_be16(
                cv[4],
                cv[5],
            )),
            old(self).spec_current() matches Some(cv) ==> r == Result::<
                u16,
                Error<ProtocolHandlerError<R::Error, W::Error>>,
            >::Ok(spec_be16(cv[4], cv[5])),
            r matches Err(e) ==> (e is NotUpdated && old(self).spec_current() is None),
    {
        match &self.current_values {
            Some(values) => Ok(values.load()),
            None => Err(Error::NotUpdated),
        }
    }

    /// Reads the whole block of live registers (position, speed, load,
    /// voltage, temperature) into the cache in one exchange.
    pub fn update(&mut self) -> (r: Result<(), Error<ProtocolHandlerError<R::Error, W::Error>>>)
        requires
            old(self).inv(),
        ensures
            final(self).inv(),
            final(self).spec_id() == old(self).spec_id(),
            r matches Ok(_) ==> (final(self).spec_current() matches Some(cv) && cv.len() == 8),
            r matches Ok(_) ==> exists|region: Seq<u8>|
                ({
                    &&& #[trigger] spec_verify_ok(region)
                    &&& spec_id(region) == old(self).spec_id()
                    &&& spec_payload(region).len() == 9
                    &&& final(self).spec_current() == Option::Some(spec_payload(region).skip(1))
                }),
            r matches Err(_) ==> final(self).spec_current() == old(self).spec_current(),
    {
        let mut values = CurrentValues::new();
        match self.read_continuous_registers(REGISTER_CURRENT_POSITION_H_ADDRESS, &mut values.buffer)
        {
            Ok(()) => {},
            Err(e) => {
                return Err(Error::ProtocolError(e));
            },
        }
        self.current_values = Some(values);
        Ok(())
    }

    /// The smallest speed the device accepts.
    pub fn min_speed(&self) -> (r: i16)
        ensures
            r == 0,
    {
        0
    }

    /// The largest speed the device accepts.
    pub fn max_speed(&self) -> (r: i16)
        ensures
            r == 0x7fff,
    {
        0x7fff
    }

    /// The largest period the device accepts.
    pub fn max_period(&self) -> (r: u16)
        ensures
            r == 0xffff,
    {
        0xffff
    }
}

} // verus!
