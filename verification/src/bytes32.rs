//! Fixed-size 32-byte identity hash.
use vstd::prelude::*;

verus! {

/// A 32-byte hash (block identity, state roots, checksums).
#[derive(Clone, Copy, Debug, PartialEq, Eq, Hash)]
pub struct Bytes32 {
    pub bytes: [u8; 32],
}

impl View for Bytes32 {
    type V = Seq<u8>;

    open spec fn view(&self) -> Seq<u8> {
        self.bytes@
    }
}

impl Bytes32 {
    /// Wrap raw hash octets.
    pub fn new(bytes: [u8; 32]) -> (r: Bytes32)
        ensures
            r.bytes == bytes,
    {
        Bytes32 { bytes }
    }

    /// The raw hash octets.
    pub fn to_bytes(&self) -> (r: [u8; 32])
        ensures
            r == self.bytes,
    {
        self.bytes
    }

    /// True when every octet is zero (the all-zero default hash).
    pub open spec fn spec_is_zero(self) -> bool {
        forall|i: int| 0 <= i < 32 ==> self.bytes@[i] == 0u8
    }

    /// The all-zero hash.
    pub fn zero() -> (r: Bytes32)
        ensures
            r.spec_is_zero(),
    {
        Bytes32 { bytes: [0u8; 32] }
    }

    /// Byte-wise equality of two hashes.
    pub fn same_as(&self, other: &Bytes32) -> (r: bool)
        ensures
            r == (self@ == other@),
            r == (*self == *other),
    {
        let mut i: usize = 0;
        while i < 32
            invariant
                0 <= i <= 32,
                forall|j: int| 0 <= j < i ==> self.bytes@[j] == other.bytes@[j],
            decreases 32 - i,
        {
            if self.bytes[i] != other.bytes[i] {
                return false;
            }
            i = i + 1;
        }
        assert(self.bytes@ =~= other.bytes@);
        assert(self.bytes == other.bytes);
        true
    }
}

/// An owned copy of a byte slice.
pub fn copy_bytes(s: &[u8]) -> (r: Vec<u8>)
    ensures
        r@ == s@,
{
    let mut out: Vec<u8> = Vec::new();
    let mut i: usize = 0;
    while i < s.len()
        invariant
            0 <= i <= s@.len(),
            out@ == s@.subrange(0, i as int),
        decreases s@.len() - i,
    {
        out.push(s[i]);
        i = i + 1;
        assert(out@ =~= s@.subrange(0, i as int));
    }
    assert(s@.subrange(0, s@.len() as int) =~= s@);
    out
}

impl Default for Bytes32 {
    fn default() -> (r: Bytes32)
        ensures
            r.spec_is_zero(),
    {
        Bytes32::zero()
    }
}

} // verus!
