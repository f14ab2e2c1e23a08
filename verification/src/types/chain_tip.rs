//! The canonical chain tip and its 40-byte stored encoding.
use vstd::prelude::*;

use crate::bytes32::Bytes32;
use crate::error::BlockStoreError;
use crate::text::{decimal, with_number};
use crate::encoding::{lemma_pow256_8, lemma_pow256_pos, pow256};

verus! {

/// The `k` low-order base-256 digits of `n`, least significant first.
pub open spec fn le_bytes(n: nat, k: nat) -> Seq<u8>
    decreases k,
{
    if k == 0 {
        Seq::empty()
    } else {
        seq![(n % 256) as u8] + le_bytes(n / 256, (k - 1) as nat)
    }
}

/// The number whose little-endian digits are `s`.
pub open spec fn le_value(s: Seq<u8>) -> nat
    decreases s.len(),
{
    if s.len() == 0 {
        0
    } else {
        s[0] as nat + 256 * le_value(s.drop_first())
    }
}

pub proof fn lemma_le_bytes_len(n: nat, k: nat)
    ensures
        le_bytes(n, k).len() == k,
    decreases k,
{
    if k > 0 {
        lemma_le_bytes_len(n / 256, (k - 1) as nat);
    }
}

/// Decoding the little-endian digits of `n` gives `n` back when it fits in `k` digits.
pub proof fn lemma_le_value_of_bytes(n: nat, k: nat)
    requires
        n < pow256(k),
    ensures
        le_value(le_bytes(n, k)) == n,
    decreases k,
{
    if k > 0 {
        let s = le_bytes(n, k);
        lemma_le_bytes_len(n / 256, (k - 1) as nat);
        assert(s.drop_first() =~= le_bytes(n / 256, (k - 1) as nat));
        lemma_le_value_of_bytes(n / 256, (k - 1) as nat);
    }
}

/// Encoding the value of little-endian digits gives the digits back.
pub proof fn lemma_le_bytes_of_value(s: Seq<u8>)
    ensures
        le_bytes(le_value(s), s.len()) == s,
    decreases s.len(),
{
    if s.len() > 0 {
        let v = le_value(s);
        let rest = le_value(s.drop_first());
        assert(v % 256 == s[0] as nat);
        assert(v / 256 == rest);
        lemma_le_bytes_of_value(s.drop_first());
        assert(le_bytes(v, s.len()) =~= seq![s[0]] + s.drop_first());
        assert(seq![s[0]] + s.drop_first() =~= s);
    }
}

/// Canonical chain tip: hash and height of the tip block.
#[derive(Debug, Clone, Copy, PartialEq, Eq)]
pub struct ChainTip {
    pub hash: Bytes32,
    pub height: u64,
}

impl ChainTip {
    /// The stored encoding: hash octets, then the height as 8 little-endian bytes.
    pub open spec fn encoded(self) -> Seq<u8> {
        self.hash@ + le_bytes(self.height as nat, 8)
    }

    /// Encode to 40 bytes: `hash (32) || height (u64 little-endian)`.
    pub fn to_bytes(&self) -> (r: [u8; 40])
        ensures
            r@ == self.encoded(),
    {
        let mut buf = [0u8; 40];
        let mut i: usize = 0;
        while i < 32
            invariant
                0 <= i <= 32,
                buf@.len() == 40,
                forall|j: int| 0 <= j < i ==> buf@[j] == self.hash.bytes@[j],
            decreases 32 - i,
        {
            buf[i] = self.hash.bytes[i];
            i = i + 1;
        }
        let mut rest: u64 = self.height;
        let mut k: usize = 0;
        while k < 8
            invariant
                0 <= k <= 8,
                buf@.len() == 40,
                forall|j: int| 0 <= j < 32 ==> buf@[j] == self.hash.bytes@[j],
                le_bytes(self.height as nat, 8) == buf@.subrange(32, 32 + k as int) + le_bytes(
                    rest as nat,
                    (8 - k) as nat,
                ),
            decreases 8 - k,
        {
            let ghost before = buf@;
            buf[32 + k] = (rest % 256) as u8;
            proof {
                let m = (8 - k) as nat;
                assert(le_bytes(rest as nat, m) == seq![(rest % 256) as u8] + le_bytes(
                    (rest / 256) as nat,
                    (m - 1) as nat,
                ));
                assert(buf@.subrange(32, 32 + k as int + 1) =~= before.subrange(32, 32 + k as int)
                    + seq![(rest % 256) as u8]);
                assert(before.subrange(32, 32 + k as int) + (seq![(rest % 256) as u8] + le_bytes(
                    (rest / 256) as nat,
                    (m - 1) as nat,
                )) =~= buf@.subrange(32, 32 + k as int + 1) + le_bytes(
                    (rest / 256) as nat,
                    (m - 1) as nat,
                ));
            }
            rest = rest / 256;
            k = k + 1;
        }
        assert(buf@ =~= self.hash@ + buf@.subrange(32, 40));
        assert(le_bytes(rest as nat, 0) =~= Seq::<u8>::empty());
        assert(buf@.subrange(32, 40) + Seq::<u8>::empty() =~= buf@.subrange(32, 40));
        buf
    }

    /// Decode from exactly 40 bytes; any other length is `InvalidData`.
    pub fn from_bytes(bytes: &[u8]) -> (r: Result<ChainTip, BlockStoreError>)
        ensures
            bytes@.len() == 40 ==> r == Ok::<ChainTip, BlockStoreError>(
                ChainTip::decoded(bytes@),
            ),
            bytes@.len() != 40 ==> (r matches Err(BlockStoreError::InvalidData(msg)) && msg@
                == "ChainTip requires 40 bytes, got "@ + decimal(bytes@.len())),
    {
        if bytes.len() != 40 {
            return Err(
                BlockStoreError::InvalidData(
                    with_number("ChainTip requires 40 bytes, got ", bytes.len() as u64),
                ),
            );
        }
        let mut hb = [0u8; 32];
        let mut i: usize = 0;
        while i < 32
            invariant
                0 <= i <= 32,
                bytes@.len() == 40,
                hb@.len() == 32,
                forall|j: int| 0 <= j < i ==> hb@[j] == bytes@[j],
            decreases 32 - i,
        {
            hb[i] = bytes[i];
            i = i + 1;
        }
        let mut height: u64 = 0;
        let mut k: usize = 8;
        while k > 0
            invariant
                0 <= k <= 8,
                bytes@.len() == 40,
                height as nat == le_value(bytes@.subrange(32 + k as int, 40)),
                (height as nat) < pow256((8 - k) as nat),
            decreases k,
        {
            let ghost s = bytes@.subrange(32 + k as int - 1, 40);
            proof {
                assert(s.drop_first() =~= bytes@.subrange(32 + k as int, 40));
                assert(pow256((8 - k + 1) as nat) == 256
                    * pow256((8 - k) as nat));
                assert(pow256((8 - k) as nat) <= 0x100_0000_0000_0000) by {
                    lemma_pow256_8();
                    reveal_with_fuel(pow256, 9);
                    lemma_pow256_le_7((8 - k) as nat);
                }
            }
            height = bytes[32 + k - 1] as u64 + 256 * height;
            k = k - 1;
        }
        let tip = ChainTip { hash: Bytes32 { bytes: hb }, height };
        assert(hb@ =~= bytes@.subrange(0, 32));
        assert(array_from_seq32(bytes@.subrange(0, 32))@ == bytes@.subrange(0, 32));
        assert(array_from_seq32(bytes@.subrange(0, 32)) =~= hb);
        assert(bytes@.subrange(32 + k as int, 40) =~= bytes@.subrange(32, 40));
        Ok(tip)
    }

    /// The tip a 40-byte record decodes to.
    pub open spec fn decoded(s: Seq<u8>) -> ChainTip {
        ChainTip {
            hash: Bytes32 { bytes: array_from_seq32(s.subrange(0, 32)) },
            height: le_value(s.subrange(32, 40)) as u64,
        }
    }
}

/// The 32-element array whose view is `s`.
pub open spec fn array_from_seq32(s: Seq<u8>) -> [u8; 32] {
    choose|a: [u8; 32]| a@ == s
}

proof fn lemma_pow256_le_7(k: nat)
    requires
        k <= 7,
    ensures
        pow256(k) <= 0x100_0000_0000_0000,
    decreases 7 - k,
{
    reveal_with_fuel(pow256, 8);
    if k < 7 {
        lemma_pow256_le_7(k + 1);
        lemma_pow256_pos(k);
    }
}

/// Decoding the stored encoding of a tip gives the same tip back.
pub proof fn lemma_chain_tip_round_trip(t: ChainTip)
    ensures
        t.encoded().len() == 40,
        ChainTip::decoded(t.encoded()) == t,
{
    lemma_le_bytes_len(t.height as nat, 8);
    lemma_pow256_8();
    lemma_le_value_of_bytes(t.height as nat, 8);
    let e = t.encoded();
    assert(e.subrange(0, 32) =~= t.hash@);
    assert(e.subrange(32, 40) =~= le_bytes(t.height as nat, 8));
    let a = array_from_seq32(e.subrange(0, 32));
    assert(exists|x: [u8; 32]| x@ == e.subrange(0, 32)) by {
        assert(t.hash.bytes@ == e.subrange(0, 32));
    }
    assert(a@ == t.hash.bytes@);
    assert(a =~= t.hash.bytes);
}

/// Encoding the tip decoded from any 40 bytes gives those bytes back.
pub proof fn lemma_chain_tip_bytes_round_trip(s: Seq<u8>)
    requires
        s.len() == 40,
    ensures
        ChainTip::decoded(s).encoded() == s,
{
    let h = s.subrange(32, 40);
    lemma_le_bytes_of_value(h);
    lemma_le_value_bound(h);
    lemma_pow256_8();
    let t = ChainTip::decoded(s);
    assert(exists|x: [u8; 32]| x@ == s.subrange(0, 32)) by {
        let x = [s[0], s[1], s[2], s[3], s[4], s[5], s[6], s[7], s[8], s[9], s[10], s[11], s[12], s[13], s[14], s[15], s[16], s[17], s[18], s[19], s[20], s[21], s[22], s[23], s[24], s[25], s[26], s[27], s[28], s[29], s[30], s[31]];
        assert(x@ =~= s.subrange(0, 32));
    }
    assert(t.encoded() =~= s);
}

proof fn lemma_le_value_bound(s: Seq<u8>)
    ensures
        le_value(s) < pow256(s.len()),
    decreases s.len(),
{
    if s.len() > 0 {
        lemma_le_value_bound(s.drop_first());
        assert(pow256(s.len()) == 256 * pow256(
            (s.len() - 1) as nat,
        ));
    }
}

} // verus!
