//! Stateless frame codec.
//!
//! A byte region is interpreted as `[id, length, payload..., checksum]`
//! (the two wire marker bytes are already stripped).  The `length` field
//! counts the payload bytes plus the checksum byte, so a well-formed
//! region holds exactly `length + 2` bytes.  The checksum is the bitwise
//! complement of the sum, modulo 256, of the bytes `[0, length + 1)`,
//! that is of the id, the length field and the payload.

use vstd::prelude::*;
use vstd::arithmetic::div_mod::{lemma_mod_self_0, lemma_mod_twice, lemma_add_mod_noop};

verus! {

/// Sum of a byte sequence as an unbounded integer.
pub open spec fn sum_bytes(s: Seq<u8>) -> int
    decreases s.len(),
{
    if s.len() == 0 {
        0
    } else {
        sum_bytes(s.drop_last()) + s.last()
    }
}

/// The checksum of a byte sequence: the sum modulo 256, complemented.
pub open spec fn spec_checksum_of(bytes: Seq<u8>) -> u8 {
    (255 - sum_bytes(bytes) % 256) as u8
}

/// The id field of a region.
pub open spec fn spec_id(region: Seq<u8>) -> u8 {
    region[0]
}

/// The length field of a region.
pub open spec fn spec_length(region: Seq<u8>) -> u8 {
    region[1]
}

/// One past the last index covered by the declared length: `length + 2`.
pub open spec fn spec_end(region: Seq<u8>) -> int {
    spec_length(region) + 2
}

/// The region is long enough to hold the id and length fields and a
/// checksum byte.
pub open spec fn header_ok(region: Seq<u8>) -> bool {
    region.len() >= 3
}

/// The declared length does not read past the region's end.
pub open spec fn length_ok(region: Seq<u8>) -> bool {
    spec_end(region) <= region.len()
}

/// The payload: the bytes between the header and the checksum byte.
pub open spec fn spec_payload(region: Seq<u8>) -> Seq<u8> {
    region.subrange(2, spec_length(region) + 1)
}

/// The checksum byte stored in the region, at index `length + 1`.
pub open spec fn spec_stored_checksum(region: Seq<u8>) -> u8 {
    region[spec_length(region) + 1]
}

/// The checksum recomputed from the region: over the bytes `[0, length + 1)`.
pub open spec fn spec_computed_checksum(region: Seq<u8>) -> u8 {
    spec_checksum_of(region.take(spec_length(region) + 1))
}

/// A region on which `verify_checksum` succeeds.
pub open spec fn spec_verify_ok(region: Seq<u8>) -> bool {
    &&& header_ok(region)
    &&& length_ok(region)
    &&& spec_stored_checksum(region) == spec_computed_checksum(region)
}

/// A frame region assembled from an id and a payload: the length field is
/// `payload.len() + 1`, and the checksum is computed over everything
/// before it.
pub open spec fn spec_frame_region(id: u8, payload: Seq<u8>) -> Seq<u8> {
    let body = seq![id, (payload.len() + 1) as u8] + payload;
    body + seq![spec_checksum_of(body)]
}

proof fn lemma_sum_bytes_nonneg(s: Seq<u8>)
    ensures
        sum_bytes(s) >= 0,
    decreases s.len(),
{
    if s.len() > 0 {
        lemma_sum_bytes_nonneg(s.drop_last());
    }
}

proof fn lemma_sum_bytes_push(s: Seq<u8>, b: u8)
    ensures
        sum_bytes(s.push(b)) == sum_bytes(s) + b,
{
    assert(s.push(b).drop_last() =~= s);
    assert(s.push(b).last() == b);
}

/// The failure taxonomy of the frame codec.
#[derive(Clone, Copy, Debug, PartialEq, Eq, Structural)]
pub enum PacketError {
    /// The region is under 3 bytes.
    InvalidHeader,
    /// The stored checksum does not match the recomputed one.
    InvalidChecksum,
    /// The declared length would read past the region's end.
    InvalidLength,
}

/// Computes the checksum of the first `count` bytes of `bytes`: their sum
/// modulo 256, complemented.  Shared by the codec and the command builders.
pub fn compute_checksum(bytes: &[u8], count: usize) -> (r: u8)
    requires
        count <= bytes@.len(),
    ensures
        r == spec_checksum_of(bytes@.take(count as int)),
{
    let mut checksum: u8 = 0;
    let mut i: usize = 0;
    proof {
        assert(bytes@.take(0) =~= Seq::<u8>::empty());
        lemma_mod_self_0(256);
    }
    while i < count
        invariant
            i <= count,
            count <= bytes@.len(),
            checksum == sum_bytes(bytes@.take(i as int)) % 256,
        decreases count - i,
    {
        let b = bytes[i];
        proof {
            let prefix = bytes@.take(i as int);
            assert(bytes@.take(i + 1) =~= prefix.push(bytes@[i as int]));
            lemma_sum_bytes_push(prefix, bytes@[i as int]);
            lemma_sum_bytes_nonneg(prefix);
            lemma_add_mod_noop(sum_bytes(prefix), b as int, 256);
            lemma_mod_twice(b as int, 256);
        }
        checksum = ((checksum as u16 + b as u16) % 256) as u8;
        i = i + 1;
    }
    proof {
        lemma_sum_bytes_nonneg(bytes@.take(count as int));
    }
    assert(!checksum == 255 - checksum) by (bit_vector);
    !checksum
}

/// A read-only view over a frame region.
pub struct PacketReader<'a> {
    raw: &'a [u8],
}

impl<'a> View for PacketReader<'a> {
    type V = Seq<u8>;

    closed spec fn view(&self) -> Seq<u8> {
        self.raw@
    }
}

impl<'a> PacketReader<'a> {
    pub fn new(data: &'a [u8]) -> (r: Self)
        ensures
            r@ == data@,
    {
        Self { raw: data }
    }

    pub fn id_unchecked(&self) -> (r: u8)
        requires
            self@.len() >= 1,
        ensures
            r == spec_id(self@),
    {
        self.raw[0]
    }

    pub fn length_unchecked(&self) -> (r: u8)
        requires
            self@.len() >= 2,
        ensures
            r == spec_length(self@),
    {
        self.raw[1]
    }

    pub fn checksum_unchecked(&self) -> (r: u8)
        requires
            self@.len() >= 2,
            length_ok(self@),
        ensures
            r == spec_stored_checksum(self@),
    {
        self.raw[self.length_unchecked() as usize + 1]
    }

    fn check_header_length(&self) -> (r: Result<(), PacketError>)
        ensures
            r == (if header_ok(self@) {
                Result::<(), PacketError>::Ok(())
            } else {
                Result::<(), PacketError>::Err(PacketError::InvalidHeader)
            }),
    {
        if self.raw.len() < 3 {
            return Err(PacketError::InvalidHeader);
        }
        Ok(())
    }

    pub fn id(&self) -> (r: Result<u8, PacketError>)
        ensures
            r == (if !header_ok(self@) {
                Result::<u8, PacketError>::Err(PacketError::InvalidHeader)
            } else if !length_ok(self@) {
                Result::<u8, PacketError>::Err(PacketError::InvalidLength)
            } else {
                Result::<u8, PacketError>::Ok(spec_id(self@))
            }),
    {
        self.check_header_length()?;
        if self.length_unchecked() as usize + 2 > self.raw.len() {
            return Err(PacketError::InvalidLength);
        }
        Ok(self.id_unchecked())
    }

    pub fn length(&self) -> (r: Result<u8, PacketError>)
        ensures
            r == (if !header_ok(self@) {
                Result::<u8, PacketError>::Err(PacketError::InvalidHeader)
            } else if !length_ok(self@) {
                Result::<u8, PacketError>::Err(PacketError::InvalidLength)
            } else {
                Result::<u8, PacketError>::Ok(spec_length(self@))
            }),
    {
        self.check_header_length()?;
        if self.length_unchecked() as usize + 2 > self.raw.len() {
            return Err(PacketError::InvalidLength);
        }
        Ok(self.length_unchecked())
    }

    pub fn checksum(&self) -> (r: Result<u8, PacketError>)
        ensures
            r == (if !header_ok(self@) {
                Result::<u8, PacketError>::Err(PacketError::InvalidHeader)
            } else if !length_ok(self@) {
                Result::<u8, PacketError>::Err(PacketError::InvalidLength)
            } else {
                Result::<u8, PacketError>::Ok(spec_stored_checksum(self@))
            }),
    {
        self.check_header_length()?;
        if self.length_unchecked() as usize + 2 > self.raw.len() {
            return Err(PacketError::InvalidLength);
        }
        Ok(self.checksum_unchecked())
    }

    pub fn data(&self) -> (r: Result<&[u8], PacketError>)
        ensures
            !header_ok(self@) ==> r == Result::<&[u8], PacketError>::Err(
                PacketError::InvalidHeader,
            ),
            header_ok(self@) && (!length_ok(self@) || spec_length(self@) == 0) ==> r == Result::<
                &[u8],
                PacketError,
            >::Err(PacketError::InvalidLength),
            header_ok(self@) && length_ok(self@) && spec_length(self@) >= 1 ==> (r matches Ok(d)
                && d@ == spec_payload(self@)),
    {
        self.check_header_length()?;
        let length = self.length_unchecked() as usize;
        if length == 0 || length + 2 > self.raw.len() {
            return Err(PacketError::InvalidLength);
        }
        Ok(vstd::slice::slice_subrange(self.raw, 2, length + 2 - 1))
    }

    pub fn calculate_checksum(&self) -> (r: Result<u8, PacketError>)
        ensures
            r == (if !header_ok(self@) {
                Result::<u8, PacketError>::Err(PacketError::InvalidHeader)
            } else if !length_ok(self@) {
                Result::<u8, PacketError>::Err(PacketError::InvalidLength)
            } else {
                Result::<u8, PacketError>::Ok(spec_computed_checksum(self@))
            }),
    {
        self.check_header_length()?;
        let length = self.length_unchecked() as usize;
        if length + 2 > self.raw.len() {
            return Err(PacketError::InvalidLength);
        }
        Ok(compute_checksum(self.raw, length + 1))
    }

    pub fn verify_checksum(&self) -> (r: Result<(), PacketError>)
        ensures
            r == (if !header_ok(self@) {
                Result::<(), PacketError>::Err(PacketError::InvalidHeader)
            } else if !length_ok(self@) {
                Result::<(), PacketError>::Err(PacketError::InvalidLength)
            } else if spec_stored_checksum(self@) != spec_computed_checksum(self@) {
                Result::<(), PacketError>::Err(PacketError::InvalidChecksum)
            } else {
                Result::<(), PacketError>::Ok(())
            }),
            r matches Ok(_) <==> spec_verify_ok(self@),
    {
        if self.checksum()? != self.calculate_checksum()? {
            return Err(PacketError::InvalidChecksum);
        }
        Ok(())
    }
}

/// A mutable builder over a frame region buffer.  It owns the buffer;
/// [`PacketWriter::into_inner`] hands it back once the frame is built.
pub struct PacketWriter {
    data: Vec<u8>,
}

impl View for PacketWriter {
    type V = Seq<u8>;

    closed spec fn view(&self) -> Seq<u8> {
        self.data@
    }
}

impl PacketWriter {
    pub fn new(data: Vec<u8>) -> (r: Self)
        ensures
            r@ == data@,
    {
        Self { data }
    }

    /// Hands the underlying buffer back.
    pub fn into_inner(self) -> (r: Vec<u8>)
        ensures
            r@ == self@,
    {
        self.data
    }

    pub fn id_unchecked(&self) -> (r: u8)
        requires
            self@.len() >= 1,
        ensures
            r == spec_id(self@),
    {
        self.data[0]
    }

    pub fn length_unchecked(&self) -> (r: u8)
        requires
            self@.len() >= 2,
        ensures
            r == spec_length(self@),
    {
        self.data[1]
    }

    pub fn data_unchecked(&self, index: usize) -> (r: u8)
        requires
            index + 2 < self@.len(),
        ensures
            r == self@[index + 2],
    {
        let n = self.data.len();
        assert(index + 2 < n);
        self.data[index + 2]
    }

    pub fn checksum_unchecked(&self) -> (r: u8)
        requires
            self@.len() >= 2,
            length_ok(self@),
        ensures
            r == spec_stored_checksum(self@),
    {
        self.data[self.length_unchecked() as usize + 1]
    }

    fn check_header_length(&self) -> (r: Result<(), PacketError>)
        ensures
            r == (if !header_ok(self@) {
                Result::<(), PacketError>::Err(PacketError::InvalidHeader)
            } else if !length_ok(self@) {
                Result::<(), PacketError>::Err(PacketError::InvalidLength)
            } else {
                Result::<(), PacketError>::Ok(())
            }),
    {
        if self.data.len() < 3 {
            return Err(PacketError::InvalidHeader);
        }
        if self.length_unchecked() as usize > self.data.len() - 2 {
            return Err(PacketError::InvalidLength);
        }
        Ok(())
    }

    pub fn id(&self) -> (r: Result<u8, PacketError>)
        ensures
            r == (if !header_ok(self@) {
                Result::<u8, PacketError>::Err(PacketError::InvalidHeader)
            } else if !length_ok(self@) {
                Result::<u8, PacketError>::Err(PacketError::InvalidLength)
            } else {
                Result::<u8, PacketError>::Ok(spec_id(self@))
            }),
    {
        self.check_header_length()?;
        Ok(self.id_unchecked())
    }

    pub fn length(&self) -> (r: Result<u8, PacketError>)
        ensures
            r == (if !header_ok(self@) {
                Result::<u8, PacketError>::Err(PacketError::InvalidHeader)
            } else if !length_ok(self@) {
                Result::<u8, PacketError>::Err(PacketError::InvalidLength)
            } else {
                Result::<u8, PacketError>::Ok(spec_length(self@))
            }),
    {
        self.check_header_length()?;
        Ok(self.length_unchecked())
    }

    pub fn data(&self) -> (r: Result<&[u8], PacketError>)
        ensures
            !header_ok(self@) ==> r == Result::<&[u8], PacketError>::Err(
                PacketError::InvalidHeader,
            ),
            header_ok(self@) && (!length_ok(self@) || spec_length(self@) == 0) ==> r == Result::<
                &[u8],
                PacketError,
            >::Err(PacketError::InvalidLength),
            header_ok(self@) && length_ok(self@) && spec_length(self@) >= 1 ==> (r matches Ok(d)
                && d@ == spec_payload(self@)),
    {
        self.check_header_length()?;
        let length = self.length_unchecked() as usize;
        if length == 0 {
            return Err(PacketError::InvalidLength);
        }
        Ok(vstd::slice::slice_subrange(self.data.as_slice(), 2, length + 2 - 1))
    }

    pub fn checksum(&self) -> (r: Result<u8, PacketError>)
        ensures
            r == (if !header_ok(self@) {
                Result::<u8, PacketError>::Err(PacketError::InvalidHeader)
            } else if !length_ok(self@) {
                Result::<u8, PacketError>::Err(PacketError::InvalidLength)
            } else {
                Result::<u8, PacketError>::Ok(spec_stored_checksum(self@))
            }),
    {
        self.check_header_length()?;
        Ok(self.checksum_unchecked())
    }

    pub fn set_id(&mut self, id: u8) -> (r: Result<(), PacketError>)
        ensures
            r == (if !header_ok(old(self)@) {
                Result::<(), PacketError>::Err(PacketError::InvalidHeader)
            } else if !length_ok(old(self)@) {
                Result::<(), PacketError>::Err(PacketError::InvalidLength)
            } else {
                Result::<(), PacketError>::Ok(())
            }),
            r matches Ok(_) ==> final(self)@ == old(self)@.update(0, id),
            r matches Err(_) ==> final(self)@ == old(self)@,
    {
        self.check_header_length()?;
        self.data[0] = id;
        Ok(())
    }

    pub fn set_length(&mut self, length: u8) -> (r: Result<(), PacketError>)
        ensures
            r == (if header_ok(old(self)@) {
                Result::<(), PacketError>::Ok(())
            } else {
                Result::<(), PacketError>::Err(PacketError::InvalidHeader)
            }),
            r matches Ok(_) ==> final(self)@ == old(self)@.update(1, length),
            r matches Err(_) ==> final(self)@ == old(self)@,
    {
        if self.data.len() < 3 {
            return Err(PacketError::InvalidHeader);
        }
        self.data[1] = length;
        Ok(())
    }

    /// Writes one payload byte, at `index` within the payload region (so at
    /// `index + 2` within the whole region).  An index on or past the
    /// checksum byte is rejected as a length inconsistency.
    pub fn set_data(&mut self, index: usize, value: u8) -> (r: Result<(), PacketError>)
        ensures
            r == (if !header_ok(old(self)@) {
                Result::<(), PacketError>::Err(PacketError::InvalidHeader)
            } else if !length_ok(old(self)@) || index + 1 >= spec_length(old(self)@) {
                Result::<(), PacketError>::Err(PacketError::InvalidLength)
            } else {
                Result::<(), PacketError>::Ok(())
            }),
            r matches Ok(_) ==> final(self)@ == old(self)@.update(index + 2, value),
            r matches Err(_) ==> final(self)@ == old(self)@,
    {
        self.check_header_length()?;
        let length = self.length_unchecked() as usize;
        if length < 2 || index > length - 2 {
            return Err(PacketError::InvalidLength);
        }
        let n = self.data.len();
        assert(index + 2 < n);
        self.data[index + 2] = value;
        Ok(())
    }

    pub fn calculate_checksum(&self) -> (r: Result<u8, PacketError>)
        ensures
            r == (if !header_ok(self@) {
                Result::<u8, PacketError>::Err(PacketError::InvalidHeader)
            } else if !length_ok(self@) {
                Result::<u8, PacketError>::Err(PacketError::InvalidLength)
            } else {
                Result::<u8, PacketError>::Ok(spec_computed_checksum(self@))
            }),
    {
        self.check_header_length()?;
        let length = self.length_unchecked() as usize;
        Ok(compute_checksum(self.data.as_slice(), length + 1))
    }

    /// Recomputes the checksum over the current header and payload and
    /// stores it in the checksum byte; afterwards the region verifies.
    pub fn update_checksum(&mut self) -> (r: Result<(), PacketError>)
        ensures
            r == (if !header_ok(old(self)@) {
                Result::<(), PacketError>::Err(PacketError::InvalidHeader)
            } else if !length_ok(old(self)@) {
                Result::<(), PacketError>::Err(PacketError::InvalidLength)
            } else {
                Result::<(), PacketError>::Ok(())
            }),
            r matches Ok(_) ==> final(self)@ == old(self)@.update(
                spec_length(old(self)@) + 1,
                spec_computed_checksum(old(self)@),
            ),
            r matches Ok(_) && spec_length(old(self)@) >= 1 ==> spec_verify_ok(final(self)@),
            r matches Err(_) ==> final(self)@ == old(self)@,
    {
        self.check_header_length()?;
        let checksum = match self.calculate_checksum() {
            Ok(c) => c,
            Err(e) => {
                return Err(e);
            },
        };
        let index = self.length_unchecked() as usize + 1;
        let n = self.data.len();
        assert(index < n);
        self.data[index] = checksum;
        proof {
            if spec_length(old(self)@) >= 1 {
                lemma_update_checksum_restores(old(self)@);
            }
        }
        Ok(())
    }
}

/// Round trip: a frame region assembled from any id and any payload of
/// length 1 to 254 decodes to the same id, to length `payload.len() + 1`,
/// and to the same payload, and its checksum verifies.
pub proof fn lemma_round_trip(id: u8, payload: Seq<u8>)
    requires
        1 <= payload.len() <= 254,
    ensures
        ({
            let region = spec_frame_region(id, payload);
            &&& region.len() == payload.len() + 3
            &&& header_ok(region)
            &&& length_ok(region)
            &&& spec_id(region) == id
            &&& spec_length(region) == payload.len() + 1
            &&& spec_payload(region) == payload
            &&& spec_verify_ok(region)
        }),
{
    let body = seq![id, (payload.len() + 1) as u8] + payload;
    let region = spec_frame_region(id, payload);
    assert(region.len() == payload.len() + 3);
    assert(spec_length(region) == payload.len() + 1);
    assert(spec_payload(region) =~= payload);
    assert(region.take(spec_length(region) + 1) =~= body);
    assert(spec_stored_checksum(region) == spec_checksum_of(body));
}

/// Checksum sensitivity: replacing the stored checksum byte of a
/// verifying region with any different byte makes verification fail.
pub proof fn lemma_checksum_byte_corruption(region: Seq<u8>, corrupted: u8)
    requires
        spec_verify_ok(region),
        spec_length(region) >= 1,
        corrupted != spec_stored_checksum(region),
    ensures
        ({
            let damaged = region.update(spec_length(region) + 1, corrupted);
            &&& spec_stored_checksum(damaged) == corrupted
            &&& spec_computed_checksum(damaged) == spec_computed_checksum(region)
            &&& !spec_verify_ok(damaged)
        }),
{
    let damaged = region.update(spec_length(region) + 1, corrupted);
    assert(damaged.take(spec_length(damaged) + 1) =~= region.take(spec_length(region) + 1));
}

/// Restoration: storing the recomputed checksum into the checksum byte of
/// any consistent region (after any payload mutation) makes it verify.
pub proof fn lemma_update_checksum_restores(region: Seq<u8>)
    requires
        header_ok(region),
        length_ok(region),
        spec_length(region) >= 1,
    ensures
        spec_verify_ok(region.update(spec_length(region) + 1, spec_computed_checksum(region))),
{
    let restored = region.update(spec_length(region) + 1, spec_computed_checksum(region));
    assert(restored.take(spec_length(restored) + 1) =~= region.take(spec_length(region) + 1));
}

} // verus!
