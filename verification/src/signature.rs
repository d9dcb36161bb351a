//! The 4-byte tag that names a table's kind.

use core::cmp::Ordering;
use vstd::prelude::*;
use vstd::string::StringSliceAdditionalSpecFns;
use vstd::utf8::decode_utf8;
use vstd::utf8::valid_utf8;

use crate::text::bytes_as_str;

verus! {

/// A 4-byte tag at the start of every table that identifies which kind of
/// table it is. Equality is exact byte match; the order is byte-wise
/// lexicographic. Any 4 bytes are representable; well-known tags have
/// named constructors.
#[derive(Clone, Copy, Debug)]
pub struct Signature(pub [u8; 4]);

impl View for Signature {
    type V = Seq<u8>;

    open spec fn view(&self) -> Seq<u8> {
        self.0@
    }
}

impl PartialEq for Signature {
    fn eq(&self, other: &Signature) -> (equal: bool) {
        let equal = self.0[0] == other.0[0] && self.0[1] == other.0[1] && self.0[2]
            == other.0[2] && self.0[3] == other.0[3];
        proof {
            if equal {
                assert(self@ =~= other@);
            }
        }
        equal
    }
}

impl Eq for Signature {

}

impl vstd::std_specs::cmp::PartialEqSpecImpl for Signature {
    open spec fn obeys_eq_spec() -> bool {
        true
    }

    open spec fn eq_spec(&self, other: &Signature) -> bool {
        self@ == other@
    }
}

/// Byte-wise lexicographic comparison of two tags, the order used by
/// `partial_cmp` and the comparison operators.
pub open spec fn spec_cmp_bytes(a: Seq<u8>, b: Seq<u8>, i: int) -> Ordering
    decreases 4 - i,
{
    if i >= 4 {
        Ordering::Equal
    } else if a[i] < b[i] {
        Ordering::Less
    } else if a[i] > b[i] {
        Ordering::Greater
    } else {
        spec_cmp_bytes(a, b, i + 1)
    }
}

impl Signature {
    /// The tag of the Root System Description Table, `b"RSDT"`.
    pub fn rsdt() -> (signature: Signature)
        ensures
            signature@ == seq![0x52u8, 0x53u8, 0x44u8, 0x54u8],
    {
        Signature([0x52, 0x53, 0x44, 0x54])
    }

    /// The tag of the eXtended System Description Table, `b"XSDT"`.
    pub fn xsdt() -> (signature: Signature)
        ensures
            signature@ == seq![0x58u8, 0x53u8, 0x44u8, 0x54u8],
    {
        Signature([0x58, 0x53, 0x44, 0x54])
    }

    /// The tag of the Fixed ACPI Description Table, `b"FACP"`.
    pub fn fadt() -> (signature: Signature)
        ensures
            signature@ == seq![0x46u8, 0x41u8, 0x43u8, 0x50u8],
    {
        Signature([0x46, 0x41, 0x43, 0x50])
    }

    /// The tag of the High Precision Event Timer table, `b"HPET"`.
    pub fn hpet() -> (signature: Signature)
        ensures
            signature@ == seq![0x48u8, 0x50u8, 0x45u8, 0x54u8],
    {
        Signature([0x48, 0x50, 0x45, 0x54])
    }

    /// The tag of the Multiple APIC Description Table, `b"APIC"`.
    pub fn madt() -> (signature: Signature)
        ensures
            signature@ == seq![0x41u8, 0x50u8, 0x49u8, 0x43u8],
    {
        Signature([0x41, 0x50, 0x49, 0x43])
    }

    /// The tag of the PCI Express memory-mapped configuration table, `b"MCFG"`.
    pub fn mcfg() -> (signature: Signature)
        ensures
            signature@ == seq![0x4du8, 0x43u8, 0x46u8, 0x47u8],
    {
        Signature([0x4d, 0x43, 0x46, 0x47])
    }

    /// The tag of a Secondary System Description Table, `b"SSDT"`.
    pub fn ssdt() -> (signature: Signature)
        ensures
            signature@ == seq![0x53u8, 0x53u8, 0x44u8, 0x54u8],
    {
        Signature([0x53, 0x53, 0x44, 0x54])
    }

    pub fn new(bytes: [u8; 4]) -> (signature: Signature)
        ensures
            signature@ == bytes@,
    {
        Signature(bytes)
    }

    /// The tag's bytes as text.
    ///
    /// The tag is not text-checked by `SdtHeader::validate`, so the caller
    /// must know the bytes are valid UTF-8 before rendering them.
    pub fn as_str(&self) -> (text: &str)
        requires
            valid_utf8(self@),
        ensures
            text.spec_bytes() == self@,
            text@ == decode_utf8(self@),
    {
        match bytes_as_str(self.0.as_slice()) {
            Some(text) => {
                proof {
                    vstd::utf8::encode_utf8_decode_utf8(text@);
                }
                text
            },
            None => vstd::pervasive::unreached(),
        }
    }
}

impl PartialOrd for Signature {
    fn partial_cmp(&self, other: &Signature) -> (ordering: Option<Ordering>) {
        let mut i: usize = 0;
        while i < 4
            invariant
                i <= 4,
                spec_cmp_bytes(self@, other@, 0) == spec_cmp_bytes(self@, other@, i as int),
            decreases 4 - i,
        {
            if self.0[i] < other.0[i] {
                return Some(Ordering::Less);
            }
            if self.0[i] > other.0[i] {
                return Some(Ordering::Greater);
            }
            i += 1;
        }
        Some(Ordering::Equal)
    }
}

/// Law: the comparison returns `Equal` exactly on equal tags, and swapping
/// the sides swaps `Less` and `Greater` — the order is antisymmetric.
pub proof fn lemma_cmp_equal_and_antisymmetric(a: Signature, b: Signature)
    ensures
        spec_cmp_bytes(a@, b@, 0) == Ordering::Equal <==> a@ == b@,
        spec_cmp_bytes(a@, b@, 0) == Ordering::Less <==> spec_cmp_bytes(b@, a@, 0)
            == Ordering::Greater,
{
    reveal_with_fuel(spec_cmp_bytes, 5);
    if spec_cmp_bytes(a@, b@, 0) == Ordering::Equal {
        assert(a@ =~= b@);
    }
}

/// Law: the order is transitive.
pub proof fn lemma_cmp_transitive(a: Signature, b: Signature, c: Signature)
    requires
        spec_cmp_bytes(a@, b@, 0) == Ordering::Less,
        spec_cmp_bytes(b@, c@, 0) == Ordering::Less,
    ensures
        spec_cmp_bytes(a@, c@, 0) == Ordering::Less,
{
    reveal_with_fuel(spec_cmp_bytes, 5);
}

impl vstd::std_specs::cmp::PartialOrdSpecImpl for Signature {
    open spec fn obeys_partial_cmp_spec() -> bool {
        true
    }

    open spec fn partial_cmp_spec(&self, other: &Signature) -> Option<Ordering> {
        Some(spec_cmp_bytes(self@, other@, 0))
    }
}

} // verus!
