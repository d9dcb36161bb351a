//! The 36-byte header shared by all System Description Tables, and its
//! validation.

use vstd::arithmetic::div_mod::lemma_mod_multiples_vanish;
use vstd::prelude::*;
use vstd::string::StringSliceAdditionalSpecFns;
use vstd::utf8::decode_utf8;
use vstd::utf8::valid_utf8;

use crate::signature::Signature;
use crate::text::bytes_as_str;
use crate::text::check_utf8;

verus! {

/// The size in bytes of the common header at the start of every table.
pub const HEADER_LENGTH: usize = 36;

/// Why `validate` rejected a table. Every error carries the signature the
/// caller expected, so a report can name the table kind that was being
/// checked.
#[derive(Clone, Copy, Debug)]
pub enum AcpiError {
    SdtInvalidSignature(Signature),
    SdtInvalidOemId(Signature),
    SdtInvalidTableId(Signature),
    SdtInvalidChecksum(Signature),
}

impl PartialEq for AcpiError {
    fn eq(&self, other: &AcpiError) -> (equal: bool) {
        match (self, other) {
            (AcpiError::SdtInvalidSignature(a), AcpiError::SdtInvalidSignature(b)) => *a == *b,
            (AcpiError::SdtInvalidOemId(a), AcpiError::SdtInvalidOemId(b)) => *a == *b,
            (AcpiError::SdtInvalidTableId(a), AcpiError::SdtInvalidTableId(b)) => *a == *b,
            (AcpiError::SdtInvalidChecksum(a), AcpiError::SdtInvalidChecksum(b)) => *a == *b,
            _ => false,
        }
    }
}

impl Eq for AcpiError {

}

impl vstd::std_specs::cmp::PartialEqSpecImpl for AcpiError {
    open spec fn obeys_eq_spec() -> bool {
        true
    }

    open spec fn eq_spec(&self, other: &AcpiError) -> bool {
        match (self, other) {
            (AcpiError::SdtInvalidSignature(a), AcpiError::SdtInvalidSignature(b)) => a@ == b@,
            (AcpiError::SdtInvalidOemId(a), AcpiError::SdtInvalidOemId(b)) => a@ == b@,
            (AcpiError::SdtInvalidTableId(a), AcpiError::SdtInvalidTableId(b)) => a@ == b@,
            (AcpiError::SdtInvalidChecksum(a), AcpiError::SdtInvalidChecksum(b)) => a@ == b@,
            _ => false,
        }
    }
}

/// The common prologue of every table: the fields firmware writes at the
/// first 36 bytes. `length` counts the whole table, this header included.
#[derive(Clone, Copy, Debug)]
pub struct SdtHeader {
    pub signature: Signature,
    pub length: u32,
    pub revision: u8,
    pub checksum: u8,
    pub oem_id: [u8; 6],
    pub oem_table_id: [u8; 8],
    pub oem_revision: u32,
    pub creator_id: u32,
    pub creator_revision: u32,
}

/// The 32-bit little-endian value stored at `offset` in `bytes`.
pub open spec fn le_u32(bytes: Seq<u8>, offset: int) -> u32 {
    (bytes[offset] + bytes[offset + 1] * 0x100 + bytes[offset + 2] * 0x10000 + bytes[offset + 3]
        * 0x1000000) as u32
}

/// The header `header` is exactly what the fixed byte layout of the common
/// prologue stores in the first 36 bytes of `bytes`.
pub open spec fn parses_to(bytes: Seq<u8>, header: SdtHeader) -> bool {
    &&& bytes.len() >= HEADER_LENGTH
    &&& header.signature@ == bytes.subrange(0, 4)
    &&& header.length == le_u32(bytes, 4)
    &&& header.revision == bytes[8]
    &&& header.checksum == bytes[9]
    &&& header.oem_id@ == bytes.subrange(10, 16)
    &&& header.oem_table_id@ == bytes.subrange(16, 24)
    &&& header.oem_revision == le_u32(bytes, 24)
    &&& header.creator_id == le_u32(bytes, 28)
    &&& header.creator_revision == le_u32(bytes, 32)
}

/// The plain sum of all bytes in `bytes`.
pub open spec fn byte_sum(bytes: Seq<u8>) -> int
    decreases bytes.len(),
{
    if bytes.len() == 0 {
        0
    } else {
        byte_sum(bytes.drop_last()) + bytes.last()
    }
}

/// The checksum rule: the first `length` bytes of the table sum to zero
/// modulo 256.
pub open spec fn checksum_ok(table: Seq<u8>, length: int) -> bool {
    byte_sum(table.subrange(0, length)) % 256 == 0
}

/// What `SdtHeader::validate` returns: the checks run in this order —
/// signature, then OEM id text, then OEM table id text, then checksum —
/// and the first to fail names the error.
pub open spec fn spec_validate(header: SdtHeader, expected: Signature, table: Seq<u8>) -> Result<
    (),
    AcpiError,
> {
    if header.signature@ != expected@ {
        Err(AcpiError::SdtInvalidSignature(expected))
    } else if !valid_utf8(header.oem_id@) {
        Err(AcpiError::SdtInvalidOemId(expected))
    } else if !valid_utf8(header.oem_table_id@) {
        Err(AcpiError::SdtInvalidTableId(expected))
    } else if !checksum_ok(table, header.length as int) {
        Err(AcpiError::SdtInvalidChecksum(expected))
    } else {
        Ok(())
    }
}

/// Reads the 32-bit little-endian value at `offset`.
fn read_le_u32(bytes: &[u8], offset: usize) -> (value: u32)
    requires
        offset + 4 <= bytes@.len(),
    ensures
        value == le_u32(bytes@, offset as int),
{
    bytes[offset] as u32 + bytes[offset + 1] as u32 * 0x100 + bytes[offset + 2] as u32 * 0x10000
        + bytes[offset + 3] as u32 * 0x1000000
}

impl SdtHeader {
    /// Reads the header fields from their fixed offsets in the first 36
    /// bytes of `bytes`.
    pub fn parse(bytes: &[u8]) -> (header: SdtHeader)
        requires
            bytes@.len() >= HEADER_LENGTH,
        ensures
            parses_to(bytes@, header),
    {
        let header = SdtHeader {
            signature: Signature([bytes[0], bytes[1], bytes[2], bytes[3]]),
            length: read_le_u32(bytes, 4),
            revision: bytes[8],
            checksum: bytes[9],
            oem_id: [bytes[10], bytes[11], bytes[12], bytes[13], bytes[14], bytes[15]],
            oem_table_id: [
                bytes[16],
                bytes[17],
                bytes[18],
                bytes[19],
                bytes[20],
                bytes[21],
                bytes[22],
                bytes[23],
            ],
            oem_revision: read_le_u32(bytes, 24),
            creator_id: read_le_u32(bytes, 28),
            creator_revision: read_le_u32(bytes, 32),
        };
        proof {
            assert(header.signature@ =~= bytes@.subrange(0, 4));
            assert(header.oem_id@ =~= bytes@.subrange(10, 16));
            assert(header.oem_table_id@ =~= bytes@.subrange(16, 24));
        }
        header
    }

    /// Check that the header carries the expected signature, that its OEM
    /// text fields are valid text, and that the whole table keeps the
    /// checksum rule.
    ///
    /// `table` must hold the mapped table the header was read from, at
    /// least `self.length` bytes of it — the caller learns that length with
    /// `peek_at_sdt_header` and remaps before validating.
    pub fn validate(&self, signature: Signature, table: &[u8]) -> (result: Result<(), AcpiError>)
        requires
            self.length as int <= table@.len(),
        ensures
            result == spec_validate(*self, signature, table@),
    {
        // Check the signature
        if !(self.signature == signature) {
            return Err(AcpiError::SdtInvalidSignature(signature));
        }
        // Check the OEM id
        if !check_utf8(self.oem_id.as_slice()) {
            return Err(AcpiError::SdtInvalidOemId(signature));
        }
        // Check the OEM table id
        if !check_utf8(self.oem_table_id.as_slice()) {
            return Err(AcpiError::SdtInvalidTableId(signature));
        }
        // Validate the checksum over the whole table
        let length = self.length as usize;
        let mut sum: u8 = 0;
        let mut i: usize = 0;
        while i < length
            invariant
                i <= length,
                length == self.length,
                length <= table@.len(),
                sum == byte_sum(table@.subrange(0, i as int)) % 256,
            decreases length - i,
        {
            proof {
                lemma_byte_sum_grow(table@, i as int);
                lemma_byte_sum_nonneg(table@.subrange(0, i as int));
                lemma_mod_multiples_vanish(
                    byte_sum(table@.subrange(0, i as int)) / 256,
                    sum + table@[i as int],
                    256,
                );
            }
            sum = sum.wrapping_add(table[i]);
            i += 1;
        }
        proof {
            assert(table@.subrange(0, length as int) == table@.subrange(0, i as int));
        }
        if sum > 0 {
            return Err(AcpiError::SdtInvalidChecksum(signature));
        }
        Ok(())
    }

    /// The OEM id bytes as text.
    ///
    /// The bytes must be known to be valid UTF-8, which a successful
    /// `validate` of this header establishes.
    pub fn oem_id(&self) -> (text: &str)
        requires
            valid_utf8(self.oem_id@),
        ensures
            text.spec_bytes() == self.oem_id@,
            text@ == decode_utf8(self.oem_id@),
    {
        match bytes_as_str(self.oem_id.as_slice()) {
            Some(text) => {
                proof {
                    vstd::utf8::encode_utf8_decode_utf8(text@);
                }
                text
            },
            None => vstd::pervasive::unreached(),
        }
    }

    /// The OEM table id bytes as text.
    ///
    /// The bytes must be known to be valid UTF-8, which a successful
    /// `validate` of this header establishes.
    pub fn oem_table_id(&self) -> (text: &str)
        requires
            valid_utf8(self.oem_table_id@),
        ensures
            text.spec_bytes() == self.oem_table_id@,
            text@ == decode_utf8(self.oem_table_id@),
    {
        match bytes_as_str(self.oem_table_id.as_slice()) {
            Some(text) => {
                proof {
                    vstd::utf8::encode_utf8_decode_utf8(text@);
                }
                text
            },
            None => vstd::pervasive::unreached(),
        }
    }
}

/// The sum over a prefix one byte longer grows by exactly that byte.
proof fn lemma_byte_sum_grow(bytes: Seq<u8>, i: int)
    requires
        0 <= i < bytes.len(),
    ensures
        byte_sum(bytes.subrange(0, i + 1)) == byte_sum(bytes.subrange(0, i)) + bytes[i],
{
    let longer = bytes.subrange(0, i + 1);
    assert(longer.drop_last() =~= bytes.subrange(0, i));
}

/// A sum of bytes is never negative.
proof fn lemma_byte_sum_nonneg(bytes: Seq<u8>)
    ensures
        byte_sum(bytes) >= 0,
    decreases bytes.len(),
{
    if bytes.len() > 0 {
        lemma_byte_sum_nonneg(bytes.drop_last());
    }
}

/// Replacing one byte moves the sum by exactly the difference of the bytes.
pub proof fn lemma_byte_sum_update(bytes: Seq<u8>, i: int, value: u8)
    requires
        0 <= i < bytes.len(),
    ensures
        byte_sum(bytes.update(i, value)) == byte_sum(bytes) - bytes[i] + value,
    decreases bytes.len(),
{
    let updated = bytes.update(i, value);
    if i == bytes.len() - 1 {
        assert(updated.drop_last() =~= bytes.drop_last());
    } else {
        assert(updated.drop_last() =~= bytes.drop_last().update(i, value));
        lemma_byte_sum_update(bytes.drop_last(), i, value);
    }
}

/// Law: the byte layout determines the header — two headers read from the
/// same bytes are equal.
pub proof fn lemma_parses_to_deterministic(bytes: Seq<u8>, first: SdtHeader, second: SdtHeader)
    requires
        parses_to(bytes, first),
        parses_to(bytes, second),
    ensures
        first == second,
{
    broadcast use vstd::array::group_array_axioms;

    assert(first.signature.0 =~= second.signature.0);
    assert(first.oem_id =~= second.oem_id);
    assert(first.oem_table_id =~= second.oem_table_id);
}

/// Law: a header whose signature is the expected one, whose OEM text fields
/// are valid text, and whose table keeps the checksum rule validates
/// successfully.
pub proof fn lemma_validate_accepts(header: SdtHeader, expected: Signature, table: Seq<u8>)
    requires
        header.signature@ == expected@,
        valid_utf8(header.oem_id@),
        valid_utf8(header.oem_table_id@),
        checksum_ok(table, header.length as int),
    ensures
        spec_validate(header, expected, table) == Ok::<(), AcpiError>(()),
{
}

/// Law: a header whose signature differs from the expected one is rejected
/// with `SdtInvalidSignature`, whatever else may also be wrong — the
/// signature is checked before any other condition.
pub proof fn lemma_validate_signature_first(header: SdtHeader, expected: Signature, table: Seq<u8>)
    requires
        header.signature@ != expected@,
    ensures
        spec_validate(header, expected, table) == Err::<(), AcpiError>(
            AcpiError::SdtInvalidSignature(expected),
        ),
{
}

/// Law: the checks run in the order signature, OEM id, OEM table id,
/// checksum, and the first failing check names the error.
pub proof fn lemma_validate_check_order(header: SdtHeader, expected: Signature, table: Seq<u8>)
    ensures
        header.signature@ != expected@ ==> spec_validate(header, expected, table) == Err::<
            (),
            AcpiError,
        >(AcpiError::SdtInvalidSignature(expected)),
        header.signature@ == expected@ && !valid_utf8(header.oem_id@) ==> spec_validate(
            header,
            expected,
            table,
        ) == Err::<(), AcpiError>(AcpiError::SdtInvalidOemId(expected)),
        header.signature@ == expected@ && valid_utf8(header.oem_id@) && !valid_utf8(
            header.oem_table_id@,
        ) ==> spec_validate(header, expected, table) == Err::<(), AcpiError>(
            AcpiError::SdtInvalidTableId(expected),
        ),
        header.signature@ == expected@ && valid_utf8(header.oem_id@) && valid_utf8(
            header.oem_table_id@,
        ) && !checksum_ok(table, header.length as int) ==> spec_validate(header, expected, table)
            == Err::<(), AcpiError>(AcpiError::SdtInvalidChecksum(expected)),
{
}

/// Law: flipping exactly one byte within the summed `length` bytes of a
/// table that validated breaks the checksum, and validation of the changed
/// table fails with `SdtInvalidChecksum`.
pub proof fn lemma_byte_flip_fails_checksum(
    header: SdtHeader,
    expected: Signature,
    table: Seq<u8>,
    i: int,
    value: u8,
)
    requires
        spec_validate(header, expected, table) == Ok::<(), AcpiError>(()),
        0 <= i < header.length as int,
        header.length as int <= table.len(),
        value != table[i],
    ensures
        spec_validate(header, expected, table.update(i, value)) == Err::<(), AcpiError>(
            AcpiError::SdtInvalidChecksum(expected),
        ),
{
    let length = header.length as int;
    let summed = table.subrange(0, length);
    let flipped = table.update(i, value);
    assert(flipped.subrange(0, length) =~= summed.update(i, value));
    lemma_byte_sum_update(summed, i, value);
    lemma_byte_sum_nonneg(summed);
    let delta = value - summed[i];
    assert(byte_sum(summed.update(i, value)) == byte_sum(summed) + delta);
    lemma_mod_multiples_vanish(byte_sum(summed) / 256, delta, 256);
    assert(byte_sum(summed.update(i, value)) % 256 == delta % 256);
    assert(delta % 256 != 0);
}

} // verus!
