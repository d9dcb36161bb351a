use acpi::AcpiError;
use acpi::SdtHeader;
use acpi::Signature;

/// Builds a 44-byte MADT table: signature "APIC", length 44, revision 1,
/// oem_id "INTEL ", oem_table_id "TESTTBL1", checksum byte chosen so the
/// whole table sums to zero modulo 256.
fn madt_table() -> Vec<u8> {
    let mut buffer = vec![0u8; 44];
    buffer[0..4].copy_from_slice(b"APIC");
    buffer[4..8].copy_from_slice(&44u32.to_le_bytes());
    buffer[8] = 1;
    buffer[9] = 0;
    buffer[10..16].copy_from_slice(b"INTEL ");
    buffer[16..24].copy_from_slice(b"TESTTBL1");
    buffer[24..28].copy_from_slice(&7u32.to_le_bytes());
    buffer[28..32].copy_from_slice(&11u32.to_le_bytes());
    buffer[32..36].copy_from_slice(&13u32.to_le_bytes());
    for (i, byte) in buffer[36..44].iter_mut().enumerate() {
        *byte = 0xa0 + i as u8;
    }
    fix_checksum(&mut buffer);
    buffer
}

/// Sets the checksum byte so that the whole buffer sums to zero modulo 256.
fn fix_checksum(buffer: &mut [u8]) {
    buffer[9] = 0;
    let sum = buffer.iter().fold(0u8, |acc, b| acc.wrapping_add(*b));
    buffer[9] = 0u8.wrapping_sub(sum);
}

#[test]
fn parse_reads_fields_from_fixed_offsets() {
    let buffer = madt_table();
    let header = SdtHeader::parse(&buffer);
    assert_eq!(header.signature, Signature(*b"APIC"));
    assert_eq!(header.length, 44);
    assert_eq!(header.revision, 1);
    assert_eq!(header.checksum, buffer[9]);
    assert_eq!(&header.oem_id, b"INTEL ");
    assert_eq!(&header.oem_table_id, b"TESTTBL1");
    assert_eq!(header.oem_revision, 7);
    assert_eq!(header.creator_id, 11);
    assert_eq!(header.creator_revision, 13);
}

#[test]
fn parse_reads_length_little_endian() {
    let mut buffer = madt_table();
    buffer[4..8].copy_from_slice(&[0x78, 0x56, 0x34, 0x12]);
    let header = SdtHeader::parse(&buffer);
    assert_eq!(header.length, 0x12345678);
}

#[test]
fn validate_accepts_correct_table() {
    let buffer = madt_table();
    let header = SdtHeader::parse(&buffer);
    assert_eq!(header.validate(Signature::madt(), &buffer), Ok(()));
}

#[test]
fn validate_end_to_end_madt() {
    let buffer = madt_table();
    let header = SdtHeader::parse(&buffer);
    assert_eq!(header.validate(Signature::madt(), &buffer), Ok(()));
    assert_eq!(header.oem_id(), "INTEL ");
    assert_eq!(header.oem_table_id(), "TESTTBL1");
}

#[test]
fn validate_rejects_wrong_signature() {
    let buffer = madt_table();
    let header = SdtHeader::parse(&buffer);
    let expected = Signature::ssdt();
    assert_eq!(
        header.validate(expected, &buffer),
        Err(AcpiError::SdtInvalidSignature(expected))
    );
}

#[test]
fn validate_reports_signature_before_checksum() {
    let mut buffer = madt_table();
    buffer[40] = buffer[40].wrapping_add(1);
    let header = SdtHeader::parse(&buffer);
    let expected = Signature::hpet();
    assert_eq!(
        header.validate(expected, &buffer),
        Err(AcpiError::SdtInvalidSignature(expected))
    );
}

#[test]
fn validate_rejects_single_flipped_byte() {
    let buffer = madt_table();
    let header = SdtHeader::parse(&buffer);
    for i in 36..44 {
        let mut flipped = buffer.clone();
        flipped[i] = flipped[i].wrapping_add(1);
        assert_eq!(
            header.validate(Signature::madt(), &flipped),
            Err(AcpiError::SdtInvalidChecksum(Signature::madt()))
        );
    }
}

#[test]
fn validate_rejects_invalid_oem_id() {
    let mut buffer = madt_table();
    buffer[10..16].copy_from_slice(&[0xff; 6]);
    fix_checksum(&mut buffer);
    let header = SdtHeader::parse(&buffer);
    assert_eq!(
        header.validate(Signature::madt(), &buffer),
        Err(AcpiError::SdtInvalidOemId(Signature::madt()))
    );
}

#[test]
fn validate_rejects_invalid_oem_table_id() {
    let mut buffer = madt_table();
    buffer[16..24].copy_from_slice(&[0xfe; 8]);
    fix_checksum(&mut buffer);
    let header = SdtHeader::parse(&buffer);
    assert_eq!(
        header.validate(Signature::madt(), &buffer),
        Err(AcpiError::SdtInvalidTableId(Signature::madt()))
    );
}

#[test]
fn validate_reports_oem_id_before_oem_table_id_and_checksum() {
    let mut buffer = madt_table();
    buffer[10..16].copy_from_slice(&[0xff; 6]);
    buffer[16..24].copy_from_slice(&[0xfe; 8]);
    buffer[40] = buffer[40].wrapping_add(1);
    let header = SdtHeader::parse(&buffer);
    assert_eq!(
        header.validate(Signature::madt(), &buffer),
        Err(AcpiError::SdtInvalidOemId(Signature::madt()))
    );
}

#[test]
fn validate_reports_oem_table_id_before_checksum() {
    let mut buffer = madt_table();
    buffer[16..24].copy_from_slice(&[0xfe; 8]);
    buffer[40] = buffer[40].wrapping_add(1);
    let header = SdtHeader::parse(&buffer);
    assert_eq!(
        header.validate(Signature::madt(), &buffer),
        Err(AcpiError::SdtInvalidTableId(Signature::madt()))
    );
}

#[test]
fn validate_accepts_multibyte_text_fields() {
    let mut buffer = madt_table();
    let oem = "é€ ";
    assert_eq!(oem.len(), 6);
    buffer[10..16].copy_from_slice(oem.as_bytes());
    fix_checksum(&mut buffer);
    let header = SdtHeader::parse(&buffer);
    assert_eq!(header.validate(Signature::madt(), &buffer), Ok(()));
    assert_eq!(header.oem_id(), "é€ ");
}

#[test]
fn validate_sums_exactly_length_bytes() {
    let buffer = madt_table();
    let header = SdtHeader::parse(&buffer);
    let mut longer = buffer.clone();
    longer.push(0x5a);
    assert_eq!(header.validate(Signature::madt(), &longer), Ok(()));
}
