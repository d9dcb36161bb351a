//! Text handling for the byte fields of a header: a verified UTF-8
//! validity check, and the one trusted conversion to `&str`.

use vstd::prelude::*;
use vstd::string::StringSliceAdditionalSpecFns;
use vstd::utf8::codepoint_width_2;
use vstd::utf8::codepoint_width_3;
use vstd::utf8::codepoint_width_4;
use vstd::utf8::is_continuation_byte;
use vstd::utf8::length_of_first_scalar;
use vstd::utf8::partial_valid_partial_invalid_utf8;
use vstd::utf8::partial_valid_utf8;
use vstd::utf8::partial_valid_utf8_extend;
use vstd::utf8::valid_first_scalar;
use vstd::utf8::valid_utf8;

verus! {

/// Relies on core::str::from_utf8: it returns `Ok` exactly when the bytes
/// are valid UTF-8, and the string slice it then yields is a view of those
/// same bytes.
#[verifier::external_body]
pub(crate) fn bytes_as_str(bytes: &[u8]) -> (text: Option<&str>)
    ensures
        text is Some <==> valid_utf8(bytes@),
        text matches Some(s) ==> s.spec_bytes() == bytes@,
{
    core::str::from_utf8(bytes).ok()
}

/// A one-byte encoding: any byte below 0x80.
proof fn lemma_scalar_width_1(rest: Seq<u8>)
    requires
        rest.len() >= 1,
        rest[0] < 0x80,
    ensures
        valid_first_scalar(rest),
        length_of_first_scalar(rest) == 1,
{
    let b0 = rest[0];
    assert(((b0 & 0x7f) as u32) < 0xd800) by (bit_vector);
}

/// A two-byte encoding: a lead in 0xc2..=0xdf followed by a continuation
/// byte; leads 0xc0 and 0xc1 would be overlong.
proof fn lemma_scalar_width_2(rest: Seq<u8>)
    requires
        rest.len() >= 2,
        0xc2 <= rest[0] <= 0xdf,
        is_continuation_byte(rest[1]),
    ensures
        valid_first_scalar(rest),
        length_of_first_scalar(rest) == 2,
{
    let b0 = rest[0];
    let b1 = rest[1];
    assert(0x80 <= codepoint_width_2(b0, b1) < 0xd800) by (bit_vector)
        requires
            0xc2 <= b0 <= 0xdf && 0x80 <= b1 <= 0xbf,
    ;
}

/// A three-byte encoding: a lead in 0xe0..=0xef and two continuation
/// bytes, with the first continuation narrowed after 0xe0 (else overlong)
/// and after 0xed (else a surrogate).
proof fn lemma_scalar_width_3(rest: Seq<u8>)
    requires
        rest.len() >= 3,
        0xe0 <= rest[0] <= 0xef,
        is_continuation_byte(rest[1]),
        is_continuation_byte(rest[2]),
        rest[0] == 0xe0 ==> rest[1] >= 0xa0,
        rest[0] == 0xed ==> rest[1] <= 0x9f,
    ensures
        valid_first_scalar(rest),
        length_of_first_scalar(rest) == 3,
{
    let b0 = rest[0];
    let b1 = rest[1];
    let b2 = rest[2];
    assert(0x800 <= codepoint_width_3(b0, b1, b2) && !(0xd800 <= codepoint_width_3(b0, b1, b2)
        <= 0xdfff)) by (bit_vector)
        requires
            0xe0 <= b0 <= 0xef && 0x80 <= b1 <= 0xbf && 0x80 <= b2 <= 0xbf && (b0 == 0xe0 ==> b1
                >= 0xa0) && (b0 == 0xed ==> b1 <= 0x9f),
    ;
}

/// A four-byte encoding: a lead in 0xf0..=0xf4 and three continuation
/// bytes, with the first continuation narrowed after 0xf0 (else overlong)
/// and after 0xf4 (else beyond the last scalar).
proof fn lemma_scalar_width_4(rest: Seq<u8>)
    requires
        rest.len() >= 4,
        0xf0 <= rest[0] <= 0xf4,
        is_continuation_byte(rest[1]),
        is_continuation_byte(rest[2]),
        is_continuation_byte(rest[3]),
        rest[0] == 0xf0 ==> rest[1] >= 0x90,
        rest[0] == 0xf4 ==> rest[1] <= 0x8f,
    ensures
        valid_first_scalar(rest),
        length_of_first_scalar(rest) == 4,
{
    let b0 = rest[0];
    let b1 = rest[1];
    let b2 = rest[2];
    let b3 = rest[3];
    assert(0x10000 <= codepoint_width_4(b0, b1, b2, b3) <= 0x10ffff) by (bit_vector)
        requires
            0xf0 <= b0 <= 0xf4 && 0x80 <= b1 <= 0xbf && 0x80 <= b2 <= 0xbf && 0x80 <= b3 <= 0xbf
                && (b0 == 0xf0 ==> b1 >= 0x90) && (b0 == 0xf4 ==> b1 <= 0x8f),
    ;
}

/// Checks whether `bytes` is a valid UTF-8 encoding, walking one encoded
/// scalar at a time.
pub fn check_utf8(bytes: &[u8]) -> (valid: bool)
    ensures
        valid == valid_utf8(bytes@),
{
    let n = bytes.len();
    let mut i: usize = 0;
    proof {
        assert(bytes@.subrange(0, 0) =~= Seq::<u8>::empty());
    }
    while i < n
        invariant
            i <= n,
            n == bytes@.len(),
            partial_valid_utf8(bytes@, i as int),
        decreases n - i,
    {
        let ghost rest = bytes@.subrange(i as int, n as int);
        let remaining = n - i;
        let b0 = bytes[i];
        let mut ok = false;
        let mut width: usize = 1;
        if b0 < 0x80 {
            ok = true;
            proof {
                lemma_scalar_width_1(rest);
            }
        } else if b0 < 0xc2 {
            // a stray continuation byte, or a lead that can only encode
            // a value below 0x80 in two bytes
            proof {
                if 0xc0 <= b0 && rest.len() >= 2 && is_continuation_byte(rest[1]) {
                    let b1 = rest[1];
                    assert(codepoint_width_2(b0, b1) < 0x80) by (bit_vector)
                        requires
                            0xc0 <= b0 <= 0xc1 && 0x80 <= b1 <= 0xbf,
                    ;
                }
            }
        } else if b0 <= 0xdf {
            width = 2;
            if remaining >= 2 {
                let b1 = bytes[i + 1];
                ok = 0x80 <= b1 && b1 <= 0xbf;
            }
            proof {
                if ok {
                    lemma_scalar_width_2(rest);
                }
            }
        } else if b0 <= 0xef {
            width = 3;
            if remaining >= 3 {
                let b1 = bytes[i + 1];
                let b2 = bytes[i + 2];
                let b1_ok = if b0 == 0xe0 {
                    0xa0 <= b1 && b1 <= 0xbf
                } else if b0 == 0xed {
                    0x80 <= b1 && b1 <= 0x9f
                } else {
                    0x80 <= b1 && b1 <= 0xbf
                };
                ok = b1_ok && 0x80 <= b2 && b2 <= 0xbf;
            }
            proof {
                if ok {
                    lemma_scalar_width_3(rest);
                } else if rest.len() >= 3 && is_continuation_byte(rest[1])
                    && is_continuation_byte(rest[2]) {
                    let b1 = rest[1];
                    let b2 = rest[2];
                    if b0 == 0xe0 {
                        assert(codepoint_width_3(b0, b1, b2) < 0x800) by (bit_vector)
                            requires
                                b0 == 0xe0 && 0x80 <= b1 < 0xa0 && 0x80 <= b2 <= 0xbf,
                        ;
                    } else {
                        assert(0xd800 <= codepoint_width_3(b0, b1, b2) <= 0xdfff) by (bit_vector)
                            requires
                                b0 == 0xed && 0xa0 <= b1 <= 0xbf && 0x80 <= b2 <= 0xbf,
                        ;
                    }
                }
            }
        } else if b0 <= 0xf4 {
            width = 4;
            if remaining >= 4 {
                let b1 = bytes[i + 1];
                let b2 = bytes[i + 2];
                let b3 = bytes[i + 3];
                let b1_ok = if b0 == 0xf0 {
                    0x90 <= b1 && b1 <= 0xbf
                } else if b0 == 0xf4 {
                    0x80 <= b1 && b1 <= 0x8f
                } else {
                    0x80 <= b1 && b1 <= 0xbf
                };
                ok = b1_ok && 0x80 <= b2 && b2 <= 0xbf && 0x80 <= b3 && b3 <= 0xbf;
            }
            proof {
                if ok {
                    lemma_scalar_width_4(rest);
                } else if rest.len() >= 4 && is_continuation_byte(rest[1])
                    && is_continuation_byte(rest[2]) && is_continuation_byte(rest[3]) {
                    let b1 = rest[1];
                    let b2 = rest[2];
                    let b3 = rest[3];
                    if b0 == 0xf0 {
                        assert(codepoint_width_4(b0, b1, b2, b3) < 0x10000) by (bit_vector)
                            requires
                                b0 == 0xf0 && 0x80 <= b1 < 0x90 && 0x80 <= b2 <= 0xbf && 0x80 <= b3
                                    <= 0xbf,
                        ;
                    } else {
                        assert(codepoint_width_4(b0, b1, b2, b3) > 0x10ffff) by (bit_vector)
                            requires
                                b0 == 0xf4 && 0x90 <= b1 <= 0xbf && 0x80 <= b2 <= 0xbf && 0x80 <= b3
                                    <= 0xbf,
                        ;
                    }
                }
            }
        } else {
            // a lead of 0xf5..=0xf7 would encode past the last scalar;
            // 0xf8 and above is no UTF-8 lead at all
            proof {
                if b0 <= 0xf7 && rest.len() >= 4 && is_continuation_byte(rest[1])
                    && is_continuation_byte(rest[2]) && is_continuation_byte(rest[3]) {
                    let b1 = rest[1];
                    let b2 = rest[2];
                    let b3 = rest[3];
                    assert(codepoint_width_4(b0, b1, b2, b3) > 0x10ffff) by (bit_vector)
                        requires
                            0xf5 <= b0 <= 0xf7 && 0x80 <= b1 <= 0xbf && 0x80 <= b2 <= 0xbf && 0x80
                                <= b3 <= 0xbf,
                    ;
                }
            }
        }
        if !ok {
            proof {
                assert(!valid_first_scalar(rest));
                partial_valid_partial_invalid_utf8(bytes@, i as int);
            }
            return false;
        }
        proof {
            partial_valid_utf8_extend(bytes@, i as int);
            assert(length_of_first_scalar(rest) == width as int);
        }
        i += width;
    }
    proof {
        assert(bytes@.subrange(0, n as int) =~= bytes@);
    }
    true
}

} // verus!
