//! The dense canonical index: bytes `[h * 32, h * 32 + 32)` hold the hash at height `h`.
//!
//! There is no header or framing; the length is `(tallest height written + 1) * 32`.
//! This module holds the contents and every offset decision; the file that mirrors
//! them on disk is kept by the caller.
use vstd::prelude::*;

use crate::bytes32::Bytes32;
use crate::encoding::{decode_height_key, u64_key};
use crate::error::BlockStoreError;
use crate::text::owned;

verus! {

/// Base name of the dense index file next to the database directory.
pub const CANONICAL_BIN_FILE: &'static str = "canonical.bin";

/// The 32 bytes at slot `h`.
pub open spec fn slot(bytes: Seq<u8>, h: int) -> Seq<u8> {
    bytes.subrange(h * 32, h * 32 + 32)
}

/// Whether slot `h` lies inside `bytes`.
pub open spec fn slot_in_range(bytes: Seq<u8>, h: int) -> bool {
    0 <= h && h * 32 + 32 <= bytes.len()
}

/// True when every byte of `s` is zero.
pub open spec fn all_zero(s: Seq<u8>) -> bool {
    forall|i: int| 0 <= i < s.len() ==> s[i] == 0u8
}

/// Copy of 32 bytes of `src` starting at `off` into a fresh array.
fn copy_window(src: &[u8], off: usize) -> (r: [u8; 32])
    requires
        off + 32 <= src@.len(),
    ensures
        r@ == src@.subrange(off as int, off + 32),
{
    let mut out = [0u8; 32];
    let mut i: usize = 0;
    let n = src.len();
    while i < 32
        invariant
            0 <= i <= 32,
            n == src@.len(),
            off + 32 <= src@.len(),
            out@.len() == 32,
            forall|j: int| 0 <= j < i ==> out@[j] == src@[off + j],
        decreases 32 - i,
    {
        out[i] = src[off + i];
        i = i + 1;
    }
    assert(out@ =~= src@.subrange(off as int, off + 32));
    out
}

/// The 32 bytes at `off` when they lie inside `bytes` and are not all zero.
pub fn read_slice_nonzero(bytes: &[u8], off: usize) -> (r: Option<[u8; 32]>)
    requires
        off + 32 <= usize::MAX,
    ensures
        off + 32 > bytes@.len() ==> r is None,
        off + 32 <= bytes@.len() ==> (match r {
            None => all_zero(bytes@.subrange(off as int, off + 32)),
            Some(a) => a@ == bytes@.subrange(off as int, off + 32) && !all_zero(a@),
        }),
{
    if off + 32 > bytes.len() {
        return None;
    }
    let window = copy_window(bytes, off);
    let mut i: usize = 0;
    while i < 32
        invariant
            0 <= i <= 32,
            window@.len() == 32,
            off + 32 <= bytes@.len(),
            window@ == bytes@.subrange(off as int, off + 32),
            forall|j: int| 0 <= j < i ==> window@[j] == 0u8,
        decreases 32 - i,
    {
        if window[i] != 0 {
            return Some(window);
        }
        i = i + 1;
    }
    assert(all_zero(bytes@.subrange(off as int, off + 32)));
    None
}

/// Path of the dense index file for a store whose database lives at `db_dir`
/// (path join: no separator is added after an empty directory or one that
/// already ends with `/`).
pub fn canonical_bin_path(db_dir: &str) -> (r: String)
    ensures
        r@ == join_path(db_dir@, CANONICAL_BIN_FILE@),
{
    let n = db_dir.unicode_len();
    if n == 0 {
        owned(CANONICAL_BIN_FILE)
    } else if db_dir.get_char(n - 1) == '/' {
        crate::text::concat(db_dir, CANONICAL_BIN_FILE)
    } else {
        proof {
            reveal_strlit("/");
        }
        let with_sep = crate::text::concat(db_dir, "/");
        crate::text::concat(with_sep.as_str(), CANONICAL_BIN_FILE)
    }
}

/// Joining a relative file name onto a directory path.
pub open spec fn join_path(dir: Seq<char>, name: Seq<char>) -> Seq<char> {
    if dir.len() == 0 {
        name
    } else if dir.last() == '/' {
        dir + name
    } else {
        dir + seq!['/'] + name
    }
}

/// The dense height-indexed array of canonical hashes.
pub struct CanonicalDenseFile {
    bytes: Vec<u8>,
}

impl View for CanonicalDenseFile {
    type V = Seq<u8>;

    closed spec fn view(&self) -> Seq<u8> {
        self.bytes@
    }
}

/// What `read_hash` answers for `height` over contents `bytes`.
pub open spec fn dense_read(bytes: Seq<u8>, height: u64) -> Option<Seq<u8>> {
    if slot_in_range(bytes, height as usize as int) {
        Some(slot(bytes, height as usize as int))
    } else {
        None
    }
}

/// Contents after writing `hash` at `h` (growing with zeros when needed).
pub open spec fn dense_write(bytes: Seq<u8>, h: int, hash: Seq<u8>) -> Seq<u8> {
    let need = (h + 1) * 32;
    let grown = if need > bytes.len() {
        bytes + Seq::new((need - bytes.len()) as nat, |i: int| 0u8)
    } else {
        bytes
    };
    grown.subrange(0, h * 32) + hash + grown.subrange(h * 32 + 32, grown.len() as int)
}

/// Contents after resizing to `len` bytes (cutting, or extending with zeros).
pub open spec fn dense_resize(bytes: Seq<u8>, len: int) -> Seq<u8> {
    if len <= bytes.len() {
        bytes.subrange(0, len)
    } else {
        bytes + Seq::new((len - bytes.len()) as nat, |i: int| 0u8)
    }
}

fn resize_zero(v: &mut Vec<u8>, len: usize)
    ensures
        final(v)@ == dense_resize(old(v)@, len as int),
{
    if len <= v.len() {
        v.truncate(len);
    } else {
        let ghost start = v@;
        while v.len() < len
            invariant
                v@.len() <= len,
                v@.subrange(0, start.len() as int) == start,
                start.len() <= v@.len(),
                forall|j: int| start.len() <= j < v@.len() ==> v@[j] == 0u8,
            decreases len - v@.len(),
        {
            v.push(0u8);
        }
        assert(v@ =~= start + Seq::new((len - start.len()) as nat, |i: int| 0u8));
    }
}

impl CanonicalDenseFile {
    /// An empty index.
    pub fn new() -> (r: CanonicalDenseFile)
        ensures
            r@ == Seq::<u8>::empty(),
    {
        CanonicalDenseFile { bytes: Vec::new() }
    }

    /// An index over existing file contents.
    pub fn from_bytes(bytes: Vec<u8>) -> (r: CanonicalDenseFile)
        ensures
            r@ == bytes@,
    {
        CanonicalDenseFile { bytes }
    }

    /// Current contents.
    pub fn as_bytes(&self) -> (r: &[u8])
        ensures
            r@ == self@,
    {
        self.bytes.as_slice()
    }

    /// Current length in bytes.
    pub fn len_bytes(&self) -> (r: usize)
        ensures
            r == self@.len(),
    {
        self.bytes.len()
    }

    /// Hash at `height`: `None` beyond the end, otherwise the slot (all-zero slots included);
    /// an offset that overflows is a `Serialization` error.
    pub fn read_hash(&self, height: u64) -> (r: Result<Option<Bytes32>, BlockStoreError>)
        ensures
            (height as usize) * 32 > usize::MAX ==> (r matches Err(BlockStoreError::Serialization(m))
                && m@ == "canonical.bin read: height overflow"@),
            (height as usize) * 32 <= usize::MAX ==> (r matches Ok(o) && match dense_read(self@, height) {
                None => o is None,
                Some(s) => o matches Some(b) && b@ == s,
            }),
    {
        let h = height as usize;
        let offset = match h.checked_mul(32) {
            Some(o) => o,
            None => {
                return Err(BlockStoreError::Serialization(owned("canonical.bin read: height overflow")));
            },
        };
        let n = self.bytes.len();
        let end = match offset.checked_add(32) {
            Some(e) => e,
            None => {
                assert(offset + 32 > n);
                return Ok(None);
            },
        };
        if end > self.bytes.len() {
            return Ok(None);
        }
        let arr = copy_window(self.bytes.as_slice(), offset);
        Ok(Some(Bytes32::new(arr)))
    }

    /// Same offset rule as `read_hash`, but `None` for all-zero slots (gaps) and for
    /// offsets that do not fit.
    pub fn read_slot_nonzero_bytes(&self, height: u64) -> (r: Option<[u8; 32]>)
        requires
            height * 32 > usize::MAX || height * 32 + 32 <= usize::MAX,
        ensures
            !slot_in_range(self@, height as int) ==> r is None,
            slot_in_range(self@, height as int) ==> match r {
                None => all_zero(slot(self@, height as int)),
                Some(a) => a@ == slot(self@, height as int) && !all_zero(a@),
            },
    {
        let n = self.bytes.len();
        let off = match height.checked_mul(32) {
            Some(o) => o,
            None => {
                return None;
            },
        };
        if off > usize::MAX as u64 {
            return None;
        }
        read_slice_nonzero(self.bytes.as_slice(), off as usize)
    }

    /// Write `hash` at `height`, growing with zeros when `(height + 1) * 32` exceeds the
    /// current length; an offset that overflows is a `Serialization` error and changes nothing.
    pub fn write_hash(&mut self, height: u64, hash: &Bytes32) -> (r: Result<(), BlockStoreError>)
        ensures
            ((height as usize) + 1) * 32 > usize::MAX ==> (r matches Err(
                BlockStoreError::Serialization(m),
            ) && m@ == "canonical.bin write: height overflow"@ && final(self)@ == old(self)@),
            ((height as usize) + 1) * 32 <= usize::MAX ==> (r is Ok && final(self)@ == dense_write(
                old(self)@,
                height as usize as int,
                hash@,
            )),
    {
        let h = height as usize;
        let need = match h.checked_add(1) {
            Some(n) => match n.checked_mul(32) {
                Some(v) => v,
                None => {
                    return Err(BlockStoreError::Serialization(owned("canonical.bin write: height overflow")));
                },
            },
            None => {
                return Err(BlockStoreError::Serialization(owned("canonical.bin write: height overflow")));
            },
        };
        let ghost before = self.bytes@;
        if need > self.bytes.len() {
            resize_zero(&mut self.bytes, need);
        }
        let ghost grown = self.bytes@;
        assert(grown == (if need > before.len() {
            before + Seq::new((need - before.len()) as nat, |i: int| 0u8)
        } else {
            before
        }));
        let o = h * 32;
        let mut i: usize = 0;
        while i < 32
            invariant
                0 <= i <= 32,
                o + 32 <= self.bytes@.len(),
                o == h * 32,
                self.bytes@.len() == grown.len(),
                forall|j: int| 0 <= j < o ==> self.bytes@[j] == grown[j],
                forall|j: int| o + 32 <= j < grown.len() ==> self.bytes@[j] == grown[j],
                forall|j: int| o + i <= j < o + 32 ==> self.bytes@[j] == grown[j],
                forall|j: int| o <= j < o + i ==> self.bytes@[j] == hash.bytes@[j - o],
            decreases 32 - i,
        {
            self.bytes[o + i] = hash.bytes[i];
            i = i + 1;
        }
        assert(self.bytes@ =~= dense_write(before, h as int, hash@));
        Ok(())
    }

    /// Resize so that exactly heights `0..=max_height` remain: cut when shorter,
    /// zero-extend when longer; an offset that overflows is a `Serialization` error.
    pub fn truncate(&mut self, max_height: u64) -> (r: Result<(), BlockStoreError>)
        ensures
            ((max_height as usize) + 1) * 32 > usize::MAX ==> (r matches Err(
                BlockStoreError::Serialization(m),
            ) && m@ == "canonical.bin truncate: height overflow"@ && final(self)@ == old(self)@),
            ((max_height as usize) + 1) * 32 <= usize::MAX ==> (r is Ok && final(self)@ == dense_resize(
                old(self)@,
                ((max_height as usize) + 1) * 32,
            )),
    {
        let h = max_height as usize;
        let new_len = match h.checked_add(1) {
            Some(n) => match n.checked_mul(32) {
                Some(v) => v,
                None => {
                    return Err(BlockStoreError::Serialization(owned("canonical.bin truncate: height overflow")));
                },
            },
            None => {
                return Err(BlockStoreError::Serialization(owned("canonical.bin truncate: height overflow")));
            },
        };
        resize_zero(&mut self.bytes, new_len);
        Ok(())
    }
}

/// The zero hash slot.
pub open spec fn zero_slot() -> Seq<u8> {
    Seq::new(32, |i: int| 0u8)
}

/// Height that an index row's 8-byte key encodes.
pub open spec fn row_height(row: (Seq<u8>, Seq<u8>)) -> nat {
    crate::encoding::be_value(row.0)
}

/// Whether every row has an 8-byte key and a 32-byte value.
pub open spec fn rows_well_formed(rows: Seq<(Seq<u8>, Seq<u8>)>) -> bool {
    forall|i: int| 0 <= i < rows.len() ==> (#[trigger] rows[i]).0.len() == 8 && rows[i].1.len() == 32
}

/// Index of the first malformed row, if any.
pub open spec fn first_bad_row(rows: Seq<(Seq<u8>, Seq<u8>)>) -> Option<int>
    decreases rows.len(),
{
    if rows.len() == 0 {
        None
    } else {
        match first_bad_row(rows.drop_last()) {
            Some(i) => Some(i),
            None => if rows.last().0.len() != 8 || rows.last().1.len() != 32 {
                Some(rows.len() - 1)
            } else {
                None
            },
        }
    }
}

/// Largest height among the rows (0 when there are none).
pub open spec fn max_row_height(rows: Seq<(Seq<u8>, Seq<u8>)>) -> nat
    decreases rows.len(),
{
    if rows.len() == 0 {
        0
    } else {
        let m = max_row_height(rows.drop_last());
        let h = row_height(rows.last());
        if h > m { h } else { m }
    }
}

/// The hash the dense array holds at height `h`: the value of the last row for `h`,
/// zero when no row has that height.
pub open spec fn dense_slot_value(rows: Seq<(Seq<u8>, Seq<u8>)>, h: nat) -> Seq<u8>
    decreases rows.len(),
{
    if rows.len() == 0 {
        zero_slot()
    } else if row_height(rows.last()) == h {
        rows.last().1
    } else {
        dense_slot_value(rows.drop_last(), h)
    }
}

/// Views of the raw index rows.
pub open spec fn rows_view(rows: Seq<(Vec<u8>, Vec<u8>)>) -> Seq<(Seq<u8>, Seq<u8>)> {
    Seq::new(rows.len(), |i: int| (rows[i].0@, rows[i].1@))
}

proof fn lemma_first_bad_row_none(rows: Seq<(Seq<u8>, Seq<u8>)>)
    ensures
        first_bad_row(rows) is None <==> rows_well_formed(rows),
        first_bad_row(rows) matches Some(i) ==> {
            &&& 0 <= i < rows.len()
            &&& (rows[i].0.len() != 8 || rows[i].1.len() != 32)
            &&& rows_well_formed(rows.subrange(0, i))
        },
    decreases rows.len(),
{
    if rows.len() > 0 {
        lemma_first_bad_row_none(rows.drop_last());
        let d = rows.drop_last();
        assert forall|i: int| 0 <= i < d.len() implies #[trigger] d[i] == rows[i] by {}
        let last = rows.len() - 1;
        if let Some(i) = first_bad_row(d) {
            assert(rows.subrange(0, i) =~= d.subrange(0, i));
            assert(d[i] == rows[i]);
            assert(!rows_well_formed(rows));
        } else {
            assert(rows.subrange(0, rows.len() - 1) =~= d);
            if rows[last].0.len() != 8 || rows[last].1.len() != 32 {
                assert(!rows_well_formed(rows));
            } else {
                assert forall|i: int| 0 <= i < rows.len() implies (#[trigger] rows[i]).0.len() == 8
                    && rows[i].1.len() == 32 by {
                    if i < last {
                        assert(d[i] == rows[i]);
                    }
                }
            }
        }
    }
}

fn array8_from(v: &Vec<u8>) -> (r: [u8; 8])
    requires
        v@.len() == 8,
    ensures
        r@ == v@,
{
    let mut out = [0u8; 8];
    let mut i: usize = 0;
    while i < 8
        invariant
            0 <= i <= 8,
            v@.len() == 8,
            out@.len() == 8,
            forall|j: int| 0 <= j < i ==> out@[j] == v@[j],
        decreases 8 - i,
    {
        out[i] = v[i];
        i = i + 1;
    }
    assert(out@ =~= v@);
    out
}

fn array32_from(v: &Vec<u8>) -> (r: [u8; 32])
    requires
        v@.len() == 32,
    ensures
        r@ == v@,
{
    let mut out = [0u8; 32];
    let mut i: usize = 0;
    while i < 32
        invariant
            0 <= i <= 32,
            v@.len() == 32,
            out@.len() == 32,
            forall|j: int| 0 <= j < i ==> out@[j] == v@[j],
        decreases 32 - i,
    {
        out[i] = v[i];
        i = i + 1;
    }
    assert(out@ =~= v@);
    out
}

/// Overwrite slot `h` in place.
fn write_slot(buf: &mut Vec<u8>, h: usize, hash: &Bytes32)
    requires
        h * 32 + 32 <= old(buf)@.len(),
    ensures
        final(buf)@ == dense_write(old(buf)@, h as int, hash@),
        final(buf)@.len() == old(buf)@.len(),
{
    let ghost before = buf@;
    let n = buf.len();
    let o = h * 32;
    let mut i: usize = 0;
    while i < 32
        invariant
            0 <= i <= 32,
            o + 32 <= buf@.len(),
            o == h * 32,
            buf@.len() == before.len(),
            forall|j: int| 0 <= j < o ==> buf@[j] == before[j],
            forall|j: int| o + 32 <= j < before.len() ==> buf@[j] == before[j],
            forall|j: int| o <= j < o + i ==> buf@[j] == hash.bytes@[j - o],
        decreases 32 - i,
    {
        buf[o + i] = hash.bytes[i];
        i = i + 1;
    }
    assert(buf@ =~= dense_write(before, h as int, hash@));
}

/// Rebuild the dense array from the rows of the canonical column family, in the
/// order they were read. A row whose key is not 8 bytes or whose value is not 32
/// bytes is a `Serialization` error (the first such row decides), and so is a tallest
/// height whose array would not fit in memory. No rows give an empty array; otherwise
/// the array covers heights `0..=max` and each slot holds the last row written for its
/// height, zero for heights no row names.
pub fn dense_bytes_from_rows(rows: &Vec<(Vec<u8>, Vec<u8>)>) -> (r: Result<Vec<u8>, BlockStoreError>)
    ensures
        match first_bad_row(rows_view(rows@)) {
            Some(i) => r is Err && (r matches Err(BlockStoreError::Serialization(m)) && (
                if rows@[i].0@.len() != 8 {
                m@ == "canonical.bin rebuild: CF_CANONICAL key must be exactly 8 bytes"@
            } else {
                m@ == "canonical.bin rebuild: CF_CANONICAL value must be exactly 32 bytes"@
            })),
            None => if rows@.len() > 0 && (max_row_height(rows_view(rows@)) + 1) * 32 > usize::MAX {
                r matches Err(BlockStoreError::Serialization(m))
                    && m@ == "canonical.bin rebuild: height exceeds dense buffer (internal error)"@
            } else if rows@.len() == 0 {
                r matches Ok(buf) && buf@.len() == 0
            } else { r matches Ok(buf) && {
                &&& buf@.len() == (max_row_height(rows_view(rows@)) + 1) * 32
                &&& forall|h: int|
                    0 <= h <= max_row_height(rows_view(rows@)) ==> #[trigger] slot(buf@, h)
                        == dense_slot_value(rows_view(rows@), h as nat)
            } },
        },
        r matches Ok(buf) ==> forall|i: int|
            0 <= i < rows@.len() && (forall|j: int|
                i < j < rows@.len() ==> crate::encoding::be_value(#[trigger] rows@[j].0@)
                    != crate::encoding::be_value(rows@[i].0@)) ==> slot(
                buf@,
                crate::encoding::be_value(#[trigger] rows@[i].0@) as int,
            ) == rows@[i].1@,
        r matches Ok(buf) ==> forall|h: int|
            0 <= h < buf@.len() / 32 && (forall|j: int|
                0 <= j < rows@.len() ==> crate::encoding::be_value(#[trigger] rows@[j].0@) != h) ==> #[trigger] slot(
                buf@,
                h,
            ) == zero_slot(),
{
    let ghost rv = rows_view(rows@);
    proof {
        lemma_first_bad_row_none(rv);
    }
    let mut heights: Vec<(u64, Bytes32)> = Vec::new();
    let mut max_h: u64 = 0;
    let mut i: usize = 0;
    while i < rows.len()
        invariant
            0 <= i <= rows@.len(),
            rv == rows_view(rows@),
            rows_well_formed(rv.subrange(0, i as int)),
            heights@.len() == i,
            forall|j: int| 0 <= j < i ==> (#[trigger] heights@[j]).0 == row_height(rv[j])
                && heights@[j].1@ == rv[j].1,
            max_h == max_row_height(rv.subrange(0, i as int)),
            first_bad_row(rv) matches Some(b) ==> i <= b,
            first_bad_row(rv) is None <==> rows_well_formed(rv),
            first_bad_row(rv) matches Some(b) ==> {
                &&& 0 <= b < rv.len()
                &&& (rv[b].0.len() != 8 || rv[b].1.len() != 32)
                &&& rows_well_formed(rv.subrange(0, b))
            },
        decreases rows@.len() - i,
    {
        let row = &rows[i];
        assert(rv[i as int] == (row.0@, row.1@));
        if row.0.len() != 8 {
            proof {
                if let Some(b) = first_bad_row(rv) {
                    if b > i {
                        assert(rv.subrange(0, b)[i as int] == rv[i as int]);
                    }
                }
            }
            return Err(BlockStoreError::Serialization(owned("canonical.bin rebuild: CF_CANONICAL key must be exactly 8 bytes")));
        }
        let key = array8_from(&row.0);
        let height = decode_height_key(&key);
        if row.1.len() != 32 {
            proof {
                if let Some(b) = first_bad_row(rv) {
                    if b > i {
                        assert(rv.subrange(0, b)[i as int] == rv[i as int]);
                    }
                }
            }
            return Err(BlockStoreError::Serialization(owned("canonical.bin rebuild: CF_CANONICAL value must be exactly 32 bytes")));
        }
        let hash = Bytes32::new(array32_from(&row.1));
        let ghost prev = rv.subrange(0, i as int);
        heights.push((height, hash));
        if height > max_h {
            max_h = height;
        }
        proof {
            let next = rv.subrange(0, i as int + 1);
            assert(next.drop_last() =~= prev);
            assert forall|j: int| 0 <= j < next.len() implies (#[trigger] next[j]).0.len() == 8
                && next[j].1.len() == 32 by {
                if j < i {
                    assert(prev[j] == next[j]);
                }
            }
            if let Some(b) = first_bad_row(rv) {
                if b == i {
                    assert(rv[b] == rv[i as int]);
                }
            }
        }
        i = i + 1;
    }
    assert(rv.subrange(0, rows@.len() as int) =~= rv);
    if heights.len() == 0 {
        return Ok(Vec::new());
    }
    if max_h as u128 + 1 > (usize::MAX / 32) as u128 {
        return Err(BlockStoreError::Serialization(owned("canonical.bin rebuild: height exceeds dense buffer (internal error)")));
    }
    let total = (max_h as usize + 1) * 32;
    let mut buf: Vec<u8> = Vec::new();
    resize_zero(&mut buf, total);
    assert(forall|h: int| 0 <= h <= max_h ==> #[trigger] slot(buf@, h) =~= zero_slot());
    let mut k: usize = 0;
    while k < heights.len()
        invariant
            0 <= k <= heights@.len(),
            heights@.len() == rv.len(),
            rv.len() == rows@.len(),
            rows_well_formed(rv),
            buf@.len() == total,
            total == (max_h + 1) * 32,
            max_h == max_row_height(rv),
            forall|j: int| 0 <= j < rv.len() ==> (#[trigger] heights@[j]).0 == row_height(rv[j])
                && heights@[j].1@ == rv[j].1,
            forall|h: int|
                0 <= h <= max_h ==> #[trigger] slot(buf@, h) == dense_slot_value(
                    rv.subrange(0, k as int),
                    h as nat,
                ),
        decreases heights@.len() - k,
    {
        let (h, hash) = heights[k];
        proof {
            lemma_row_height_le_max(rv, k as int);
        }
        let ghost before = buf@;
        write_slot(&mut buf, h as usize, &hash);
        proof {
            let cur = rv.subrange(0, k as int + 1);
            assert(cur.drop_last() =~= rv.subrange(0, k as int));
            assert(cur.last() == rv[k as int]);
            lemma_dense_read_after_write(before, h as int, hash@);
            assert forall|g: int| 0 <= g <= max_h implies #[trigger] slot(buf@, g)
                == dense_slot_value(cur, g as nat) by {
                if g != h {
                    lemma_dense_write_preserves_other_slots(before, h as int, hash@, g);
                }
            }
        }
        k = k + 1;
    }
    assert(rv.subrange(0, heights@.len() as int) =~= rv);
    proof {
        assert forall|i: int|
            0 <= i < rows@.len() && (forall|j: int|
                i < j < rows@.len() ==> crate::encoding::be_value(#[trigger] rows@[j].0@)
                    != crate::encoding::be_value(rows@[i].0@)) implies slot(
            buf@,
            crate::encoding::be_value(#[trigger] rows@[i].0@) as int,
        ) == rows@[i].1@ by {
            assert(rv[i] == (rows@[i].0@, rows@[i].1@));
            assert forall|j: int| i < j < rv.len() implies row_height(#[trigger] rv[j]) != row_height(rv[i]) by {
                assert(rv[j] == (rows@[j].0@, rows@[j].1@));
            }
            lemma_rebuilt_slot_is_row_value(rv, i);
            lemma_row_height_le_max(rv, i);
        }
        assert forall|h: int|
            0 <= h < buf@.len() / 32 && (forall|j: int|
                0 <= j < rows@.len() ==> crate::encoding::be_value(#[trigger] rows@[j].0@) != h) implies #[trigger] slot(
            buf@,
            h,
        ) == zero_slot() by {
            assert forall|j: int| 0 <= j < rv.len() implies row_height(#[trigger] rv[j]) != h by {
                assert(rv[j] == (rows@[j].0@, rows@[j].1@));
            }
            lemma_unnamed_slot_is_zero(rv, h as nat);
            assert(buf@.len() / 32 == max_h + 1) by (nonlinear_arith)
                requires buf@.len() == (max_h + 1) * 32;
        }
    }
    Ok(buf)
}

/// The rebuilt index holds, at a height some row names, the value of the last row for
/// that height, byte for byte: the column family's hash is copied as it is.
pub proof fn lemma_rebuilt_slot_is_row_value(rows: Seq<(Seq<u8>, Seq<u8>)>, i: int)
    requires
        0 <= i < rows.len(),
        forall|j: int| i < j < rows.len() ==> row_height(#[trigger] rows[j]) != row_height(rows[i]),
    ensures
        dense_slot_value(rows, row_height(rows[i])) == rows[i].1,
    decreases rows.len(),
{
    let last = rows.len() - 1;
    if i < last {
        let d = rows.drop_last();
        assert(rows.last() == rows[last]);
        assert(d[i] == rows[i]);
        assert forall|j: int| i < j < d.len() implies row_height(#[trigger] d[j]) != row_height(d[i]) by {
            assert(d[j] == rows[j]);
        }
        lemma_rebuilt_slot_is_row_value(d, i);
    }
}

/// A height that no row names rebuilds to the zero slot.
pub proof fn lemma_unnamed_slot_is_zero(rows: Seq<(Seq<u8>, Seq<u8>)>, h: nat)
    requires
        forall|j: int| 0 <= j < rows.len() ==> row_height(#[trigger] rows[j]) != h,
    ensures
        dense_slot_value(rows, h) == zero_slot(),
    decreases rows.len(),
{
    if rows.len() > 0 {
        let d = rows.drop_last();
        assert(rows.last() == rows[rows.len() - 1]);
        assert forall|j: int| 0 <= j < d.len() implies row_height(#[trigger] d[j]) != h by {
            assert(d[j] == rows[j]);
        }
        lemma_unnamed_slot_is_zero(d, h);
    }
}

proof fn lemma_row_height_le_max(rows: Seq<(Seq<u8>, Seq<u8>)>, k: int)
    requires
        0 <= k < rows.len(),
    ensures
        row_height(rows[k]) <= max_row_height(rows),
    decreases rows.len(),
{
    if k < rows.len() - 1 {
        lemma_row_height_le_max(rows.drop_last(), k);
        assert(rows.drop_last()[k] == rows[k]);
    }
}

/// Reading a slot just written gives the written hash.
pub proof fn lemma_dense_read_after_write(bytes: Seq<u8>, h: int, hash: Seq<u8>)
    requires
        0 <= h,
        hash.len() == 32,
    ensures
        slot_in_range(dense_write(bytes, h, hash), h),
        slot(dense_write(bytes, h, hash), h) == hash,
        dense_write(bytes, h, hash).len() == if (h + 1) * 32 > bytes.len() {
            (h + 1) * 32
        } else {
            bytes.len() as int
        },
{
    let w = dense_write(bytes, h, hash);
    assert(slot(w, h) =~= hash);
}

/// Writing one slot leaves every other in-range slot as it was.
pub proof fn lemma_dense_write_preserves_other_slots(bytes: Seq<u8>, h: int, hash: Seq<u8>, g: int)
    requires
        0 <= h,
        hash.len() == 32,
        g != h,
        slot_in_range(bytes, g),
    ensures
        slot_in_range(dense_write(bytes, h, hash), g),
        slot(dense_write(bytes, h, hash), g) == slot(bytes, g),
{
    let w = dense_write(bytes, h, hash);
    assert forall|j: int| 0 <= j < 32 implies #[trigger] slot(w, g)[j] == slot(bytes, g)[j] by {
        if g < h {
            assert(g * 32 + 32 <= h * 32);
        } else {
            assert(h * 32 + 32 <= g * 32);
        }
    }
    assert(slot(w, g) =~= slot(bytes, g));
}

/// Truncating to `m` keeps the slots at or below `m` that existed and leaves nothing above `m`.
pub proof fn lemma_dense_truncate_keeps_prefix(bytes: Seq<u8>, m: int, g: int)
    requires
        0 <= m,
        0 <= g,
    ensures
        g <= m && slot_in_range(bytes, g) ==> slot(dense_resize(bytes, (m + 1) * 32), g) == slot(bytes, g),
        g > m ==> !slot_in_range(dense_resize(bytes, (m + 1) * 32), g),
        dense_resize(bytes, (m + 1) * 32).len() == (m + 1) * 32,
{
    let t = dense_resize(bytes, (m + 1) * 32);
    if g <= m && slot_in_range(bytes, g) {
        assert(slot(t, g) =~= slot(bytes, g));
    }
}

} // verus!
