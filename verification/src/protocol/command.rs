//! Command builders: construct a read-register or write-register
//! command frame into a caller-sized buffer.

use vstd::prelude::*;
use crate::packet::PacketReader;
use crate::packet::compute_checksum;
use crate::packet::spec_checksum_of;
use crate::packet::spec_computed_checksum;
use crate::packet::spec_frame_region;
use crate::packet::spec_length;
use crate::packet::spec_verify_ok;
use crate::protocol::reader::MARKER;

verus! {

/// The command codes of the wire protocol.
#[derive(Clone, Copy, Debug, PartialEq, Eq, Structural)]
pub enum Command {
    ReadRegister,
    WriteRegister,
}

impl Command {
    /// The wire code of the command.
    pub open spec fn spec_code(self) -> u8 {
        match self {
            Command::ReadRegister => 0x02,
            Command::WriteRegister => 0x03,
        }
    }

    /// The wire code of the command, as the first payload byte.
    #[verifier::when_used_as_spec(spec_code)]
    pub fn code(self) -> (r: u8)
        ensures
            r == self.spec_code(),
    {
        match self {
            Command::ReadRegister => 0x02,
            Command::WriteRegister => 0x03,
        }
    }
}

/// The full 8-byte wire frame of a read-register command: the two
/// markers, then the frame region for payload
/// `[code, address, read_length]`.
pub open spec fn spec_read_register_frame(id: u8, address: u8, length: u8) -> Seq<u8> {
    seq![MARKER, MARKER] + spec_frame_region(
        id,
        seq![Command::ReadRegister.spec_code(), address, length],
    )
}

/// A complete read-register command frame: markers, header with length
/// field 4, payload `[code, address, read_length]`, and the checksum,
/// computed immediately.
pub struct ReadRegisterCommand {
    pub raw: Vec<u8>,
}

impl ReadRegisterCommand {
    pub fn new(id: u8, address: u8, length: u8) -> (r: Self)
        ensures
            r.raw@ == spec_read_register_frame(id, address, length),
            r.raw@.len() == 8,
    {
        let mut raw: Vec<u8> = Vec::new();
        raw.push(MARKER);
        raw.push(MARKER);
        raw.push(id);
        raw.push(4);
        raw.push(Command::ReadRegister.code());
        raw.push(address);
        raw.push(length);
        let body = vstd::slice::slice_subrange(raw.as_slice(), 2, 7);
        let checksum = compute_checksum(body, 5);
        proof {
            let payload = seq![Command::ReadRegister.spec_code(), address, length];
            assert(body@.take(5) =~= seq![id, 4u8] + payload);
        }
        raw.push(checksum);
        proof {
            let payload = seq![Command::ReadRegister.spec_code(), address, length];
            assert(raw@ =~= spec_read_register_frame(id, address, length));
        }
        Self { raw }
    }
}

/// The prepared (not yet checksummed) wire frame of a write-register
/// command for `data_len` data bytes, padded with zeroes to `size`
/// bytes: markers, id, length field `3 + data_len`, the command code
/// and the address; the data region and the checksum byte are still
/// zero, for the caller to fill.
pub open spec fn spec_write_register_prepared(
    id: u8,
    address: u8,
    data_len: int,
    size: int,
) -> Seq<u8> {
    seq![MARKER, MARKER, id, (3 + data_len) as u8, Command::WriteRegister.spec_code(), address]
        + Seq::new((size - 6) as nat, |i: int| 0u8)
}

/// A two-phase write-register command frame in a buffer of `SIZE`
/// bytes: [`WriteRegisterCommand::new`] writes the markers, the header
/// and the command and address bytes; the caller then streams the data
/// bytes in with [`WriteRegisterCommand::set_data`] and must call
/// [`WriteRegisterCommand::update_checksum`] before transmission —
/// omitting that step leaves a corrupt, rejectable frame.
pub struct WriteRegisterCommand<const SIZE: usize> {
    pub raw: Vec<u8>,
}

impl<const SIZE: usize> WriteRegisterCommand<SIZE> {
    /// The whole frame is laid out and the declared length fits it.
    pub open spec fn wf(&self) -> bool {
        &&& self.raw@.len() == SIZE
        &&& self.raw@.len() >= 7
        &&& self.raw@[3] + 4 <= self.raw@.len()
        &&& self.raw@[3] >= 3
    }

    /// The number of wire bytes of the frame: markers, header, payload
    /// and checksum.
    pub open spec fn spec_len(&self) -> int {
        self.raw@[3] + 4
    }

    pub fn new(id: u8, address: u8, length: usize) -> (r: Self)
        requires
            3 + length <= 255,
            length + 7 <= SIZE,
        ensures
            r.raw@ == spec_write_register_prepared(id, address, length as int, SIZE as int),
            r.wf(),
            r.spec_len() == length + 7,
    {
        let mut raw: Vec<u8> = Vec::new();
        raw.push(MARKER);
        raw.push(MARKER);
        raw.push(id);
        raw.push(3 + length as u8);
        raw.push(Command::WriteRegister.code());
        raw.push(address);
        while raw.len() < SIZE
            invariant
                6 <= raw@.len() <= SIZE,
                raw@[0] == MARKER && raw@[1] == MARKER && raw@[2] == id,
                raw@[3] == (3 + length) as u8,
                raw@[4] == Command::WriteRegister.spec_code() && raw@[5] == address,
                forall|i: int| 6 <= i < raw@.len() ==> raw@[i] == 0u8,
            decreases SIZE - raw@.len(),
        {
            raw.push(0);
        }
        proof {
            assert(raw@ =~= spec_write_register_prepared(id, address, length as int, SIZE as int));
        }
        Self { raw }
    }

    /// How many wire bytes the frame occupies.
    pub fn len(&self) -> (r: usize)
        requires
            self.wf(),
        ensures
            r == self.spec_len(),
    {
        self.raw[3] as usize + 4
    }

    /// The wire bytes of the frame, without the zero padding.
    pub fn packet(&self) -> (r: &[u8])
        requires
            self.wf(),
        ensures
            r@ == self.raw@.take(self.spec_len()),
    {
        let n = self.len();
        vstd::slice::slice_subrange(self.raw.as_slice(), 0, n)
    }

    /// A codec view over the frame region (markers stripped).
    pub fn reader(&self) -> (r: PacketReader<'_>)
        requires
            self.raw@.len() >= 2,
        ensures
            r@ == self.raw@.skip(2),
    {
        let n = self.raw.len();
        PacketReader::new(vstd::slice::slice_subrange(self.raw.as_slice(), 2, n))
    }

    /// Writes one byte of the frame's data region: `index` counts from
    /// the command code byte, as the region layout does, so the actual
    /// register data starts at index 2.
    pub fn set_data(&mut self, index: usize, value: u8)
        requires
            old(self).wf(),
            index + 5 < old(self).spec_len(),
        ensures
            final(self).raw@ == old(self).raw@.update(index + 4, value),
            final(self).wf(),
            final(self).spec_len() == old(self).spec_len(),
    {
        let n = self.raw.len();
        assert(index + 4 < n);
        self.raw[index + 4] = value;
    }

    /// Recomputes the checksum over the frame region's header and
    /// payload and stores it in the checksum byte; afterwards the
    /// region verifies.
    pub fn update_checksum(&mut self)
        requires
            old(self).wf(),
        ensures
            final(self).wf(),
            final(self).spec_len() == old(self).spec_len(),
            final(self).raw@ == old(self).raw@.update(
                old(self).spec_len() - 1,
                spec_computed_checksum(old(self).raw@.skip(2)),
            ),
            spec_verify_ok(final(self).raw@.skip(2)),
            final(self).raw@.take(old(self).spec_len() - 1) == old(self).raw@.take(
                old(self).spec_len() - 1,
            ),
    {
        let count = self.raw[3] as usize + 1;
        let n = self.raw.len();
        let region = vstd::slice::slice_subrange(self.raw.as_slice(), 2, n);
        let checksum = compute_checksum(region, count);
        let index = self.raw[3] as usize + 3;
        assert(index < n);
        proof {
            assert(region@.take(count as int) =~= old(self).raw@.skip(2).take(
                spec_length(old(self).raw@.skip(2)) + 1,
            ));
        }
        self.raw[index] = checksum;
        proof {
            let old_region = old(self).raw@.skip(2);
            crate::packet::lemma_update_checksum_restores(old_region);
            assert(self.raw@.skip(2) =~= old_region.update(
                spec_length(old_region) + 1,
                spec_computed_checksum(old_region),
            ));
            assert(self.raw@.take(old(self).spec_len() - 1) =~= old(self).raw@.take(
                old(self).spec_len() - 1,
            ));
        }
    }
}

} // verus!
