use acpi::check_utf8;

#[test]
fn utf8_accepts_ascii_and_empty() {
    assert!(check_utf8(b""));
    assert!(check_utf8(b"INTEL "));
    assert!(check_utf8(b"TESTTBL1"));
    assert!(check_utf8(&[0x00, 0x7f]));
}

#[test]
fn utf8_accepts_multibyte_scalars() {
    assert!(check_utf8("é".as_bytes()));
    assert!(check_utf8("€".as_bytes()));
    assert!(check_utf8("🌍".as_bytes()));
    assert!(check_utf8("aé€🌍z".as_bytes()));
    // the lowest and highest scalar of each width
    assert!(check_utf8(&[0xc2, 0x80]));
    assert!(check_utf8(&[0xdf, 0xbf]));
    assert!(check_utf8(&[0xe0, 0xa0, 0x80]));
    assert!(check_utf8(&[0xef, 0xbf, 0xbf]));
    assert!(check_utf8(&[0xf0, 0x90, 0x80, 0x80]));
    assert!(check_utf8(&[0xf4, 0x8f, 0xbf, 0xbf]));
}

#[test]
fn utf8_rejects_stray_continuation_bytes() {
    assert!(!check_utf8(&[0x80]));
    assert!(!check_utf8(&[0xbf]));
    assert!(!check_utf8(&[0x41, 0x80, 0x41]));
}

#[test]
fn utf8_rejects_overlong_encodings() {
    assert!(!check_utf8(&[0xc0, 0x80]));
    assert!(!check_utf8(&[0xc1, 0xbf]));
    assert!(!check_utf8(&[0xe0, 0x80, 0x80]));
    assert!(!check_utf8(&[0xe0, 0x9f, 0xbf]));
    assert!(!check_utf8(&[0xf0, 0x80, 0x80, 0x80]));
    assert!(!check_utf8(&[0xf0, 0x8f, 0xbf, 0xbf]));
}

#[test]
fn utf8_rejects_surrogates_and_out_of_range() {
    assert!(!check_utf8(&[0xed, 0xa0, 0x80]));
    assert!(!check_utf8(&[0xed, 0xbf, 0xbf]));
    assert!(check_utf8(&[0xed, 0x9f, 0xbf]));
    assert!(!check_utf8(&[0xf4, 0x90, 0x80, 0x80]));
    assert!(!check_utf8(&[0xf5, 0x80, 0x80, 0x80]));
    assert!(!check_utf8(&[0xf8, 0x80, 0x80, 0x80, 0x80]));
    assert!(!check_utf8(&[0xff]));
}

#[test]
fn utf8_rejects_truncated_scalars() {
    assert!(!check_utf8(&[0xc2]));
    assert!(!check_utf8(&[0xe2, 0x82]));
    assert!(!check_utf8(&[0xf0, 0x9f, 0x8c]));
    assert!(!check_utf8(&[0x41, 0xc3]));
}

#[test]
fn utf8_rejects_bad_continuations() {
    assert!(!check_utf8(&[0xc3, 0x41]));
    assert!(!check_utf8(&[0xe2, 0x82, 0x41]));
    assert!(!check_utf8(&[0xe2, 0xc0, 0xac]));
    assert!(!check_utf8(&[0xf0, 0x9f, 0x8c, 0x41]));
}

#[test]
fn utf8_matches_std_on_all_two_byte_inputs() {
    for b0 in 0..=255u8 {
        for b1 in (0..=255u8).step_by(7) {
            let bytes = [b0, b1];
            assert_eq!(
                check_utf8(&bytes),
                std::str::from_utf8(&bytes).is_ok(),
                "bytes {:02x} {:02x}",
                b0,
                b1
            );
        }
    }
}
