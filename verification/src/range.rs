//! Height-range reads over the canonical index: which index rows a range scan keeps,
//! the cursor that walks them, and the heights warmed on open.
use vstd::prelude::*;

use crate::bytes32::Bytes32;
use crate::canonical::dense::row_height;
use crate::encoding::{be_value, decode_height_key, height_key, u64_key};
use crate::error::BlockStoreError;
use crate::text::owned;

verus! {

/// Scan bounds for heights `start..=end`: the first key, and the key just past the end
/// (none when `end` is the largest height).
pub fn canonical_scan_bounds(start: u64, end: u64) -> (r: ([u8; 8], Option<[u8; 8]>))
    ensures
        r.0@ == u64_key(start),
        end < u64::MAX ==> (r.1 matches Some(k) && k@ == u64_key((end + 1) as u64)),
        end == u64::MAX ==> r.1 is None,
{
    let lower = height_key(start);
    if end < u64::MAX {
        (lower, Some(height_key(end + 1)))
    } else {
        (lower, None)
    }
}

/// State of a range scan after some rows: pairs kept so far, whether the scan stopped
/// (a height past the end), or the error that ended it.
pub struct ScanState {
    pub pairs: Seq<(u64, Seq<u8>)>,
    pub stopped: bool,
    pub error: Option<u8>,
}

/// Range scan over index rows in order: a key that is not 8 bytes is error 0; a height
/// past `end` stops the scan; a height before `start` is skipped; a value that is not
/// 32 bytes is error 1; every other row is kept.
pub open spec fn scan_rows(rows: Seq<(Seq<u8>, Seq<u8>)>, start: u64, end: u64) -> ScanState
    decreases rows.len(),
{
    if rows.len() == 0 {
        ScanState { pairs: Seq::empty(), stopped: false, error: None }
    } else {
        let s = scan_rows(rows.drop_last(), start, end);
        let row = rows.last();
        if s.stopped || s.error is Some {
            s
        } else if row.0.len() != 8 {
            ScanState { error: Some(0u8), ..s }
        } else if row_height(row) > end {
            ScanState { stopped: true, ..s }
        } else if row_height(row) < start {
            s
        } else if row.1.len() != 32 {
            ScanState { error: Some(1u8), ..s }
        } else {
            ScanState { pairs: s.pairs.push((row_height(row) as u64, row.1)), ..s }
        }
    }
}

pub open spec fn pairs_view(pairs: Seq<(u64, Bytes32)>) -> Seq<(u64, Seq<u8>)> {
    Seq::new(pairs.len(), |i: int| (pairs[i].0, pairs[i].1@))
}

fn array8(v: &Vec<u8>) -> (r: [u8; 8])
    requires
        v@.len() == 8,
    ensures
        r@ == v@,
{
    [v[0], v[1], v[2], v[3], v[4], v[5], v[6], v[7]]
}

fn array32(v: &Vec<u8>) -> (r: [u8; 32])
    requires
        v@.len() == 32,
    ensures
        r@ == v@,
{
    let mut out = [0u8; 32];
    let mut i: usize = 0;
    while i < 32
        invariant
            0 <= i <= 32,
            v@.len() == 32,
            out@.len() == 32,
            forall|j: int| 0 <= j < i ==> out@[j] == v@[j],
        decreases 32 - i,
    {
        out[i] = v[i];
        i = i + 1;
    }
    assert(out@ =~= v@);
    out
}

/// The (height, hash) pairs of the canonical index rows that fall in `start..=end`, in
/// scan order. An empty range (`start > end`) reads nothing. A malformed row is a
/// `Serialization` error.
pub fn collect_canonical_pairs(rows: &Vec<(Vec<u8>, Vec<u8>)>, start: u64, end: u64) -> (r: Result<
    Vec<(u64, Bytes32)>,
    BlockStoreError,
>)
    ensures
        start > end ==> (r matches Ok(p) && p@.len() == 0),
        start <= end ==> ({
            let s = scan_rows(crate::canonical::dense::rows_view(rows@), start, end);
            match s.error {
                Some(0u8) => r matches Err(BlockStoreError::Serialization(m)) && m@
                    == "stream_blocks_in_range: CF_CANONICAL key must be exactly 8 bytes"@,
                Some(_) => r matches Err(BlockStoreError::Serialization(m)) && m@
                    == "stream_blocks_in_range: CF_CANONICAL value must be exactly 32 bytes"@,
                None => r matches Ok(p) && pairs_view(p@) == s.pairs,
            }
        }),
        r matches Ok(p) ==> forall|i: int|
            0 <= i < p@.len() ==> exists|k: int|
                0 <= k < rows@.len() && crate::encoding::be_value(#[trigger] rows@[k].0@) == (
                #[trigger] p@[i]).0 && rows@[k].1@ == p@[i].1@,
{
    let mut pairs: Vec<(u64, Bytes32)> = Vec::new();
    if start > end {
        return Ok(pairs);
    }
    let ghost rv = crate::canonical::dense::rows_view(rows@);
    let mut i: usize = 0;
    while i < rows.len()
        invariant
            0 <= i <= rows@.len(),
            start <= end,
            rv == crate::canonical::dense::rows_view(rows@),
            ({
                let s = scan_rows(rv.subrange(0, i as int), start, end);
                &&& !s.stopped
                &&& s.error is None
                &&& pairs_view(pairs@) == s.pairs
            }),
        decreases rows@.len() - i,
    {
        let row = &rows[i];
        proof {
            let pre = rv.subrange(0, i as int + 1);
            assert(pre.drop_last() =~= rv.subrange(0, i as int));
            assert(pre.last() == (row.0@, row.1@));
        }
        if row.0.len() != 8 {
            proof {
                lemma_scan_sticks(rv, i as int + 1, start, end);
            }
            return Err(BlockStoreError::Serialization(owned("stream_blocks_in_range: CF_CANONICAL key must be exactly 8 bytes")));
        }
        let key = array8(&row.0);
        let height = decode_height_key(&key);
        if height > end {
            proof {
                lemma_scan_sticks(rv, i as int + 1, start, end);
            }
            proof {
                lemma_pairs_are_rows(rows@, start, end, pairs@);
            }
            return Ok(pairs);
        }
        if height >= start {
            if row.1.len() != 32 {
                proof {
                    lemma_scan_sticks(rv, i as int + 1, start, end);
                }
                return Err(BlockStoreError::Serialization(owned("stream_blocks_in_range: CF_CANONICAL value must be exactly 32 bytes")));
            }
            let hash = Bytes32::new(array32(&row.1));
            pairs.push((height, hash));
            proof {
                let s = scan_rows(rv.subrange(0, i as int), start, end);
                assert(pairs_view(pairs@) =~= s.pairs.push((height, row.1@)));
            }
        }
        i = i + 1;
    }
    assert(rv.subrange(0, rows@.len() as int) =~= rv);
    proof {
        lemma_pairs_are_rows(rows@, start, end, pairs@);
    }
    Ok(pairs)
}

proof fn lemma_pairs_are_rows(rows: Seq<(Vec<u8>, Vec<u8>)>, start: u64, end: u64, pairs: Seq<(u64, Bytes32)>)
    requires
        pairs_view(pairs) == scan_rows(crate::canonical::dense::rows_view(rows), start, end).pairs,
    ensures
        forall|i: int|
            0 <= i < pairs.len() ==> exists|k: int|
                0 <= k < rows.len() && crate::encoding::be_value(#[trigger] rows[k].0@) == (
                #[trigger] pairs[i]).0 && rows[k].1@ == pairs[i].1@,
{
    let rv = crate::canonical::dense::rows_view(rows);
    lemma_scan_pairs_from_rows(rv, start, end);
    let sp = scan_rows(rv, start, end).pairs;
    assert forall|i: int| 0 <= i < pairs.len() implies exists|k: int|
        0 <= k < rows.len() && crate::encoding::be_value(#[trigger] rows[k].0@) == (#[trigger] pairs[i]).0
            && rows[k].1@ == pairs[i].1@ by {
        assert(pairs_view(pairs)[i] == sp[i]);
        let k = choose|k: int| 0 <= k < rv.len() && row_height(#[trigger] rv[k]) == sp[i].0 && rv[k].1 == sp[i].1;
        assert(rv[k] == (rows[k].0@, rows[k].1@));
    }
}

/// Once a scan has stopped or failed at some prefix, longer prefixes keep that outcome.
proof fn lemma_scan_sticks(rows: Seq<(Seq<u8>, Seq<u8>)>, n: int, start: u64, end: u64)
    requires
        0 <= n <= rows.len(),
    ensures
        ({
            let s = scan_rows(rows.subrange(0, n), start, end);
            (s.stopped || s.error is Some) ==> scan_rows(rows, start, end) == s
        }),
    decreases rows.len() - n,
{
    if n < rows.len() {
        lemma_scan_sticks(rows, n + 1, start, end);
        let p = rows.subrange(0, n + 1);
        assert(p.drop_last() =~= rows.subrange(0, n));
    } else {
        assert(rows.subrange(0, n) =~= rows);
    }
}

/// Every pair a range scan keeps lies inside the range, and when the index rows come in
/// ascending key order (as the store iterates them) the kept heights ascend too.
pub proof fn lemma_scan_pairs_in_range(rows: Seq<(Seq<u8>, Seq<u8>)>, start: u64, end: u64)
    ensures
        forall|i: int|
            0 <= i < scan_rows(rows, start, end).pairs.len() ==> start <= (
            #[trigger] scan_rows(rows, start, end).pairs[i]).0 <= end,
        (forall|i: int, j: int| 0 <= i < j < rows.len() ==> row_height(#[trigger] rows[i]) < row_height(#[trigger] rows[j]))
            ==> forall|i: int, j: int|
            0 <= i < j < scan_rows(rows, start, end).pairs.len() ==> (#[trigger] scan_rows(rows, start, end).pairs[i]).0
                < (#[trigger] scan_rows(rows, start, end).pairs[j]).0,
    decreases rows.len(),
{
    if rows.len() > 0 {
        let d = rows.drop_last();
        lemma_scan_pairs_in_range(d, start, end);
        lemma_scan_pairs_from_rows(d, start, end);
        assert forall|i: int| 0 <= i < d.len() implies #[trigger] d[i] == rows[i] by {}
    }
}

/// Every pair a range scan keeps is one of the index rows, read as it is: its height is
/// the height the row's key encodes and its hash is the row's value, byte for byte.
pub proof fn lemma_scan_pairs_from_rows(rows: Seq<(Seq<u8>, Seq<u8>)>, start: u64, end: u64)
    ensures
        forall|i: int|
            0 <= i < scan_rows(rows, start, end).pairs.len() ==> exists|k: int|
                0 <= k < rows.len() && row_height(#[trigger] rows[k]) == (
                #[trigger] scan_rows(rows, start, end).pairs[i]).0 && rows[k].1 == scan_rows(
                    rows,
                    start,
                    end,
                ).pairs[i].1,
    decreases rows.len(),
{
    if rows.len() > 0 {
        let d = rows.drop_last();
        lemma_scan_pairs_from_rows(d, start, end);
        assert forall|i: int| 0 <= i < d.len() implies #[trigger] d[i] == rows[i] by {}
        let s = scan_rows(rows, start, end);
        assert forall|i: int| 0 <= i < s.pairs.len() implies exists|k: int|
            0 <= k < rows.len() && row_height(#[trigger] rows[k]) == (#[trigger] s.pairs[i]).0
                && rows[k].1 == s.pairs[i].1 by {
            let sd = scan_rows(d, start, end);
            if i < sd.pairs.len() {
                assert(s.pairs[i] == sd.pairs[i]);
                let k = choose|k: int|
                    0 <= k < d.len() && row_height(#[trigger] d[k]) == sd.pairs[i].0 && d[k].1 == sd.pairs[i].1;
                assert(rows[k] == d[k]);
            } else {
                let k = rows.len() - 1;
                assert(row_height(rows[k]) == s.pairs[i].0 && rows[k].1 == s.pairs[i].1);
            }
        }
    }
}

/// A range scan over well-formed index rows in ascending height order (as the store
/// iterates them) fails on none of them and keeps every row whose height lies in
/// `start..=end`, as the pair (height, value).
pub proof fn lemma_scan_keeps_rows_in_range(rows: Seq<(Seq<u8>, Seq<u8>)>, start: u64, end: u64)
    requires
        crate::canonical::dense::rows_well_formed(rows),
        forall|i: int, j: int| 0 <= i < j < rows.len() ==> row_height(#[trigger] rows[i]) < row_height(#[trigger] rows[j]),
    ensures
        scan_rows(rows, start, end).error is None,
        scan_rows(rows, start, end).stopped ==> exists|k: int| 0 <= k < rows.len() && row_height(#[trigger] rows[k]) > end,
        forall|k: int|
            0 <= k < rows.len() && start <= row_height(#[trigger] rows[k]) <= end ==> scan_rows(rows, start, end).pairs.contains(
                (row_height(rows[k]) as u64, rows[k].1),
            ),
    decreases rows.len(),
{
    if rows.len() > 0 {
        let d = rows.drop_last();
        assert forall|i: int| 0 <= i < d.len() implies #[trigger] d[i] == rows[i] by {}
        assert(crate::canonical::dense::rows_well_formed(d)) by {
            assert forall|i: int| 0 <= i < d.len() implies (#[trigger] d[i]).0.len() == 8 && d[i].1.len() == 32 by {
                assert(d[i] == rows[i]);
            }
        }
        lemma_scan_keeps_rows_in_range(d, start, end);
        let sd = scan_rows(d, start, end);
        let s = scan_rows(rows, start, end);
        let last = rows.len() - 1;
        assert(rows.last() == rows[last]);
        assert(rows[last].0.len() == 8 && rows[last].1.len() == 32);
        if sd.stopped {
            let w = choose|k: int| 0 <= k < d.len() && row_height(#[trigger] d[k]) > end;
            assert(rows[w] == d[w]);
            assert(row_height(rows[w]) < row_height(rows[last]));
        }
        assert forall|k: int|
            0 <= k < rows.len() && start <= row_height(#[trigger] rows[k]) <= end implies s.pairs.contains(
            (row_height(rows[k]) as u64, rows[k].1),
        ) by {
            if k < last {
                assert(d[k] == rows[k]);
                assert(sd.pairs.contains((row_height(d[k]) as u64, d[k].1)));
                if !(sd.stopped) && row_height(rows[last]) <= end && row_height(rows[last]) >= start {
                    let j = choose|j: int| 0 <= j < sd.pairs.len() && sd.pairs[j] == (row_height(d[k]) as u64, d[k].1);
                    assert(s.pairs[j] == sd.pairs[j]);
                }
            } else {
                assert(s.pairs[s.pairs.len() - 1] == (row_height(rows[last]) as u64, rows[last].1));
            }
        }
        if s.stopped && !sd.stopped {
            assert(row_height(rows[last]) > end);
        }
        if s.stopped && sd.stopped {
            let w = choose|k: int| 0 <= k < d.len() && row_height(#[trigger] d[k]) > end;
            assert(rows[w] == d[w]);
        }
    }
}

/// A cursor over the pairs a range scan kept.
pub struct RangeCursor {
    pairs: Vec<(u64, Bytes32)>,
    idx: usize,
}

impl RangeCursor {
    pub closed spec fn remaining(&self) -> Seq<(u64, Bytes32)> {
        if self.idx <= self.pairs@.len() {
            self.pairs@.subrange(self.idx as int, self.pairs@.len() as int)
        } else {
            Seq::empty()
        }
    }

    /// A cursor at the first pair.
    pub fn new(pairs: Vec<(u64, Bytes32)>) -> (r: RangeCursor)
        ensures
            r.remaining() == pairs@,
    {
        assert(pairs@.subrange(0, pairs@.len() as int) =~= pairs@);
        RangeCursor { pairs, idx: 0 }
    }

    /// The next pair in ascending scan order, or `None` at the end.
    pub fn next_pair(&mut self) -> (r: Option<(u64, Bytes32)>)
        ensures
            old(self).remaining().len() == 0 ==> r is None && final(self).remaining() == old(self).remaining(),
            old(self).remaining().len() > 0 ==> r == Some(old(self).remaining()[0])
                && final(self).remaining() == old(self).remaining().drop_first(),
    {
        if self.idx >= self.pairs.len() {
            return None;
        }
        let p = self.pairs[self.idx];
        self.idx = self.idx + 1;
        assert(final(self).remaining() =~= old(self).remaining().drop_first());
        Some(p)
    }
}

/// The hash a canonical index value names: exactly 32 bytes, otherwise skipped.
pub fn canonical_value_hash(value: &Vec<u8>) -> (r: Option<Bytes32>)
    ensures
        value@.len() == 32 <==> r is Some,
        r matches Some(h) ==> h@ == value@,
{
    if value.len() != 32 {
        return None;
    }
    Some(Bytes32::new(array32(value)))
}

} // verus!
