//! Key encodings for the column families: hashes, heights, epochs, metadata names.
//!
//! Heights and epochs are stored as 8-byte big-endian keys so that the store's
//! bytewise key order is the numeric order; that fact is proved below.
use vstd::prelude::*;

use crate::bytes32::Bytes32;
use vstd::string::StringSliceAdditionalSpecFns;

verus! {

/// `256^k`.
pub open spec fn pow256(k: nat) -> nat
    decreases k,
{
    if k == 0 {
        1
    } else {
        256 * pow256((k - 1) as nat)
    }
}

/// The `k` low-order base-256 digits of `n`, most significant first.
pub open spec fn be_bytes(n: nat, k: nat) -> Seq<u8>
    decreases k,
{
    if k == 0 {
        Seq::empty()
    } else {
        be_bytes(n / 256, (k - 1) as nat).push((n % 256) as u8)
    }
}

/// The number whose big-endian digits are `s`.
pub open spec fn be_value(s: Seq<u8>) -> nat
    decreases s.len(),
{
    if s.len() == 0 {
        0
    } else {
        be_value(s.drop_last()) * 256 + s.last() as nat
    }
}

/// Bytewise lexicographic "strictly less" on sequences of equal length: they agree
/// on a prefix and differ first at an index where `a` holds the smaller byte.
pub open spec fn lex_lt(a: Seq<u8>, b: Seq<u8>) -> bool {
    &&& a.len() == b.len()
    &&& exists|i: int|
        0 <= i < a.len() && a.subrange(0, i) == b.subrange(0, i) && #[trigger] a[i] < b[i]
}

/// The 8-byte key under which height (or epoch) `n` is stored.
pub open spec fn u64_key(n: u64) -> Seq<u8> {
    be_bytes(n as nat, 8)
}

pub proof fn lemma_pow256_pos(k: nat)
    ensures
        pow256(k) >= 1,
    decreases k,
{
    if k > 0 {
        lemma_pow256_pos((k - 1) as nat);
    }
}

pub proof fn lemma_pow256_8()
    ensures
        pow256(8) == 0x1_0000_0000_0000_0000,
{
    reveal_with_fuel(pow256, 9);
}

pub proof fn lemma_be_bytes_len(n: nat, k: nat)
    ensures
        be_bytes(n, k).len() == k,
    decreases k,
{
    if k > 0 {
        lemma_be_bytes_len(n / 256, (k - 1) as nat);
    }
}

pub proof fn lemma_be_value_bound(s: Seq<u8>)
    ensures
        be_value(s) < pow256(s.len()),
    decreases s.len(),
{
    if s.len() > 0 {
        lemma_be_value_bound(s.drop_last());
    }
}

/// Decoding the digits of `n` gives `n` back, when `n` fits in `k` digits.
pub proof fn lemma_be_value_of_bytes(n: nat, k: nat)
    requires
        n < pow256(k),
    ensures
        be_value(be_bytes(n, k)) == n,
    decreases k,
{
    if k > 0 {
        let s = be_bytes(n, k);
        assert(s.drop_last() =~= be_bytes(n / 256, (k - 1) as nat));
        lemma_be_value_of_bytes(n / 256, (k - 1) as nat);
    }
}

/// Encoding the value of a digit sequence gives the sequence back.
pub proof fn lemma_be_bytes_of_value(s: Seq<u8>)
    ensures
        be_bytes(be_value(s), s.len()) == s,
    decreases s.len(),
{
    if s.len() > 0 {
        let v = be_value(s);
        let p = be_value(s.drop_last());
        assert(v / 256 == p);
        assert(v % 256 == s.last() as nat);
        lemma_be_bytes_of_value(s.drop_last());
        assert(be_bytes(v, s.len()) =~= s.drop_last().push(s.last()));
        assert(s.drop_last().push(s.last()) =~= s);
    }
}

proof fn lemma_lex_lt_value(a: Seq<u8>, b: Seq<u8>)
    requires
        lex_lt(a, b),
    ensures
        be_value(a) < be_value(b),
    decreases a.len(),
{
    let i = choose|i: int|
        0 <= i < a.len() && a.subrange(0, i) == b.subrange(0, i) && #[trigger] a[i] < b[i];
    let n = a.len() as int;
    let a2 = a.drop_last();
    let b2 = b.drop_last();
    if i == n - 1 {
        assert(a2 =~= a.subrange(0, i));
        assert(b2 =~= b.subrange(0, i));
    } else {
        assert(a2.subrange(0, i) =~= a.subrange(0, i));
        assert(b2.subrange(0, i) =~= b.subrange(0, i));
        assert(a2[i] == a[i] && b2[i] == b[i]);
        assert(lex_lt(a2, b2));
        lemma_lex_lt_value(a2, b2);
        assert(be_value(a2) * 256 + 256 <= be_value(b2) * 256);
    }
}

proof fn lemma_lex_total(a: Seq<u8>, b: Seq<u8>)
    requires
        a.len() == b.len(),
        a != b,
    ensures
        lex_lt(a, b) || lex_lt(b, a),
{
    if forall|j: int| 0 <= j < a.len() ==> a[j] == b[j] {
        assert(a =~= b);
    }
    let k = choose|j: int| 0 <= j < a.len() && a[j] != b[j];
    // the first index at which the sequences differ
    let first = choose_first_difference(a, b, k);
    assert(a.subrange(0, first) =~= b.subrange(0, first));
    if a[first] < b[first] {
        assert(lex_lt(a, b));
    } else {
        assert(b.subrange(0, first) =~= a.subrange(0, first));
        assert(lex_lt(b, a));
    }
}

proof fn choose_first_difference(a: Seq<u8>, b: Seq<u8>, k: int) -> (first: int)
    requires
        a.len() == b.len(),
        0 <= k < a.len(),
        a[k] != b[k],
    ensures
        0 <= first <= k,
        a[first] != b[first],
        forall|j: int| 0 <= j < first ==> a[j] == b[j],
    decreases k,
{
    if forall|j: int| 0 <= j < k ==> a[j] == b[j] {
        k
    } else {
        let j = choose|j: int| 0 <= j < k && a[j] != b[j];
        choose_first_difference(a, b, j)
    }
}

/// Height keys are injective: distinct heights never share a key.
pub proof fn lemma_u64_key_injective(a: u64, b: u64)
    ensures
        (u64_key(a) == u64_key(b)) <==> (a == b),
{
    lemma_pow256_8();
    lemma_be_value_of_bytes(a as nat, 8);
    lemma_be_value_of_bytes(b as nat, 8);
}

/// The store iterates keys in bytewise order; for height and epoch keys that is
/// exactly numeric order, which range scans over the canonical index rely on.
pub proof fn lemma_u64_key_order(a: u64, b: u64)
    ensures
        (a < b) <==> lex_lt(u64_key(a), u64_key(b)),
{
    lemma_pow256_8();
    lemma_be_value_of_bytes(a as nat, 8);
    lemma_be_value_of_bytes(b as nat, 8);
    lemma_be_bytes_len(a as nat, 8);
    lemma_be_bytes_len(b as nat, 8);
    if lex_lt(u64_key(a), u64_key(b)) {
        lemma_lex_lt_value(u64_key(a), u64_key(b));
    }
    if a < b {
        lemma_u64_key_injective(a, b);
        lemma_lex_total(u64_key(a), u64_key(b));
        if lex_lt(u64_key(b), u64_key(a)) {
            lemma_lex_lt_value(u64_key(b), u64_key(a));
        }
    }
}

/// Decoding any 8-byte key and encoding the result gives the key back.
pub proof fn lemma_u64_key_of_decoded(k: Seq<u8>)
    requires
        k.len() == 8,
    ensures
        be_value(k) < 0x1_0000_0000_0000_0000,
        u64_key(be_value(k) as u64) == k,
{
    lemma_pow256_8();
    lemma_be_value_bound(k);
    lemma_be_bytes_of_value(k);
}

fn encode_u64_be(n: u64) -> (r: [u8; 8])
    ensures
        r@ == u64_key(n),
{
    let mut out = [0u8; 8];
    let mut rest: u64 = n;
    let mut i: usize = 0;
    while i < 8
        invariant
            0 <= i <= 8,
            out@.len() == 8,
            be_bytes(n as nat, 8) == be_bytes(rest as nat, (8 - i) as nat) + out@.subrange(
                8 - i,
                8,
            ),
        decreases 8 - i,
    {
        let pos = 7 - i;
        let digit = (rest % 256) as u8;
        let ghost before = out@;
        out[pos] = digit;
        proof {
            let k = (8 - i) as nat;
            assert(be_bytes(rest as nat, k) == be_bytes((rest / 256) as nat, (k - 1) as nat).push(
                digit,
            ));
            assert(out@.subrange(pos as int, 8) =~= seq![digit] + before.subrange(
                8 - i,
                8,
            ));
            assert(be_bytes((rest / 256) as nat, (k - 1) as nat).push(digit) + before.subrange(
                8 - i,
                8,
            ) =~= be_bytes((rest / 256) as nat, (k - 1) as nat) + out@.subrange(pos as int, 8));
        }
        rest = rest / 256;
        i = i + 1;
    }
    assert(out@.subrange(0, 8) =~= out@);
    out
}

fn decode_u64_be(key: &[u8; 8]) -> (r: u64)
    ensures
        r as nat == be_value(key@),
        u64_key(r) == key@,
{
    let mut acc: u64 = 0;
    let mut i: usize = 0;
    proof {
        lemma_pow256_8();
    }
    while i < 8
        invariant
            0 <= i <= 8,
            key@.len() == 8,
            acc as nat == be_value(key@.subrange(0, i as int)),
            pow256(8) == 0x1_0000_0000_0000_0000,
        decreases 8 - i,
    {
        proof {
            lemma_be_value_bound(key@.subrange(0, i as int));
            let s = key@.subrange(0, i as int + 1);
            assert(s.drop_last() =~= key@.subrange(0, i as int));
            reveal_with_fuel(pow256, 9);
            assert(pow256(i as nat) <= 0x100_0000_0000_0000) by {
                lemma_pow256_mono(i as nat, 7);
                reveal_with_fuel(pow256, 8);
            }
        }
        acc = acc * 256 + key[i] as u64;
        i = i + 1;
    }
    assert(key@.subrange(0, 8) =~= key@);
    proof {
        lemma_u64_key_of_decoded(key@);
    }
    acc
}

proof fn lemma_pow256_mono(a: nat, b: nat)
    requires
        a <= b,
    ensures
        pow256(a) <= pow256(b),
    decreases b,
{
    if a < b {
        lemma_pow256_mono(a, (b - 1) as nat);
        lemma_pow256_pos((b - 1) as nat);
    }
}

/// Raw 32-byte key for the block, header and attestation column families.
pub fn hash_key(hash: &Bytes32) -> (r: &[u8; 32])
    ensures
        r@ == hash@,
{
    &hash.bytes
}

/// Encode a chain height as an 8-byte big-endian key (canonical index).
pub fn height_key(height: u64) -> (r: [u8; 8])
    ensures
        r@ == u64_key(height),
{
    encode_u64_be(height)
}

/// Decode a big-endian height key.
pub fn decode_height_key(key: &[u8; 8]) -> (r: u64)
    ensures
        u64_key(r) == key@,
        r as nat == be_value(key@),
{
    decode_u64_be(key)
}

/// Encode an epoch number as an 8-byte big-endian key (checkpoint index).
pub fn epoch_key(epoch: u64) -> (r: [u8; 8])
    ensures
        r@ == u64_key(epoch),
{
    encode_u64_be(epoch)
}

/// Decode a big-endian epoch key.
pub fn decode_epoch_key(key: &[u8; 8]) -> (r: u64)
    ensures
        u64_key(r) == key@,
        r as nat == be_value(key@),
{
    decode_u64_be(key)
}

/// UTF-8 bytes of a metadata key name.
pub fn metadata_key(name: &str) -> (r: &[u8])
    ensures
        r@ == name.spec_bytes(),
{
    name.as_bytes()
}

/// Decoding an encoded height gives the height back, and the encoding of any
/// decoded key is that key.
pub proof fn lemma_height_key_round_trip(h: u64, k: Seq<u8>)
    requires
        k.len() == 8,
    ensures
        be_value(u64_key(h)) == h as nat,
        u64_key(be_value(k) as u64) == k,
{
    lemma_pow256_8();
    lemma_be_value_of_bytes(h as nat, 8);
    lemma_u64_key_of_decoded(k);
}

} // verus!
