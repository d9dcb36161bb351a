use acpi::peek_at_sdt_header;
use acpi::BufferAcpiHandler;
use acpi::ExtendedField;
use acpi::Signature;

/// A 36-byte header for peeking, with a recognizable length field.
fn bare_header(length: u32) -> Vec<u8> {
    let mut buffer = vec![0u8; 36];
    buffer[0..4].copy_from_slice(b"HPET");
    buffer[4..8].copy_from_slice(&length.to_le_bytes());
    buffer[8] = 2;
    buffer[10..16].copy_from_slice(b"OEMID ");
    buffer[16..24].copy_from_slice(b"OEMTABLE");
    buffer
}

#[test]
fn signature_from_bytes_equals_constant() {
    assert_eq!(Signature::new(*b"FACP"), Signature::fadt());
    assert_eq!(Signature::new(*b"APIC"), Signature::madt());
    assert!(Signature::new(*b"FACP") != Signature::madt());
}

#[test]
fn signature_orders_lexicographically() {
    assert!(Signature::new(*b"RSDT") < Signature::new(*b"SSDT"));
    assert!(Signature::rsdt() < Signature::ssdt());
    assert!(Signature::ssdt() > Signature::rsdt());
    assert!(Signature::mcfg() <= Signature::mcfg());
    assert!(Signature::new(*b"APIA") < Signature::new(*b"APIC"));
}

#[test]
fn signature_renders_as_text() {
    assert_eq!(Signature::madt().as_str(), "APIC");
    assert_eq!(Signature::fadt().as_str(), "FACP");
}

#[test]
fn extended_field_respects_revision_gate() {
    let field: ExtendedField<u32, 2> = ExtendedField::new(0x1234_5678);
    assert_eq!(field.access(1), None);
    assert_eq!(field.access(2), Some(0x1234_5678));
    assert_eq!(field.access(3), Some(0x1234_5678));
}

#[test]
fn extended_field_at_revision_zero_is_always_present() {
    let field: ExtendedField<u8, 0> = ExtendedField::new(9);
    assert_eq!(field.access(0), Some(9));
    assert_eq!(field.access(255), Some(9));
}

#[test]
fn peek_copies_the_header_bytes() {
    let header_bytes = bare_header(0x1000);
    let mut memory = vec![0x77u8; 16];
    memory.extend_from_slice(&header_bytes);
    memory.extend_from_slice(&[0x33u8; 8]);
    let mut handler = BufferAcpiHandler::new(memory);
    let header = peek_at_sdt_header(&mut handler, 16);
    assert_eq!(header.signature, Signature::hpet());
    assert_eq!(header.length, 0x1000);
    assert_eq!(header.revision, 2);
    assert_eq!(&header.oem_id, b"OEMID ");
    assert_eq!(&header.oem_table_id, b"OEMTABLE");
}

#[test]
fn peek_maps_and_unmaps_exactly_the_header() {
    let mut memory = vec![0u8; 8];
    memory.extend_from_slice(&bare_header(52));
    let mut handler = BufferAcpiHandler::new(memory);
    let _ = peek_at_sdt_header(&mut handler, 8);
    assert_eq!(handler.map_log, vec![(8, 36)]);
    assert_eq!(handler.unmap_log, vec![(8, 36)]);
}
