//! The canonical index as the store holds it: writable, read-only, or switched off,
//! and the rule that decides which on open.
use vstd::prelude::*;

use crate::bytes32::Bytes32;
use crate::canonical::dense::{
    all_zero, dense_resize, dense_write, read_slice_nonzero, slot, slot_in_range,
    CanonicalDenseFile,
};
use crate::error::BlockStoreError;

verus! {

/// What to do with the index file when the store opens.
#[derive(Debug, Clone, Copy, PartialEq, Eq)]
pub enum CanonicalSyncAction {
    /// The file matches the column family: map it as it is.
    MapExisting,
    /// The file is missing or stale: write the rebuilt contents, then map.
    RewriteAndMap,
    /// Nothing is indexed and no file exists: create an empty file, then map.
    CreateEmptyAndMap,
    /// Leave the index off; lookups fall back to the column family.
    Disabled,
}

fn bytes_equal(a: &[u8], b: &[u8]) -> (r: bool)
    ensures
        r == (a@ == b@),
{
    if a.len() != b.len() {
        return false;
    }
    let mut i: usize = 0;
    while i < a.len()
        invariant
            0 <= i <= a@.len(),
            a@.len() == b@.len(),
            forall|j: int| 0 <= j < i ==> a@[j] == b@[j],
        decreases a@.len() - i,
    {
        if a[i] != b[i] {
            return false;
        }
        i = i + 1;
    }
    assert(a@ =~= b@);
    true
}

/// Decide how to bring the index file in line with the column family on open:
/// `expected` is the rebuilt dense array, `on_disk` the file's contents (empty when the
/// file does not exist). A mismatch is rewritten on a writable store and switches the
/// index off on a read-only one; a store with nothing indexed and no file creates an
/// empty file when writable and switches the index off otherwise.
pub fn canonical_sync_action(
    expected: &[u8],
    on_disk: &[u8],
    file_exists: bool,
    writable: bool,
) -> (r: CanonicalSyncAction)
    ensures
        r == sync_action_spec(expected@, on_disk@, file_exists, writable),
{
    if !bytes_equal(on_disk, expected) {
        if !writable {
            return CanonicalSyncAction::Disabled;
        }
        CanonicalSyncAction::RewriteAndMap
    } else if expected.len() == 0 && !file_exists {
        if writable {
            CanonicalSyncAction::CreateEmptyAndMap
        } else {
            CanonicalSyncAction::Disabled
        }
    } else {
        CanonicalSyncAction::MapExisting
    }
}

pub open spec fn sync_action_spec(
    expected: Seq<u8>,
    on_disk: Seq<u8>,
    file_exists: bool,
    writable: bool,
) -> CanonicalSyncAction {
    if on_disk != expected {
        if writable {
            CanonicalSyncAction::RewriteAndMap
        } else {
            CanonicalSyncAction::Disabled
        }
    } else if expected.len() == 0 && !file_exists {
        if writable {
            CanonicalSyncAction::CreateEmptyAndMap
        } else {
            CanonicalSyncAction::Disabled
        }
    } else {
        CanonicalSyncAction::MapExisting
    }
}

/// The index as a store holds it.
pub enum CanonicalBin {
    /// Writable store: the dense array, kept in step with the file.
    Rw(CanonicalDenseFile),
    /// Read-only store: the file's contents.
    Ro(Vec<u8>),
    /// Switched off.
    Disabled,
}

impl CanonicalBin {
    /// The contents lookups see (`None` when switched off).
    pub open spec fn contents(&self) -> Option<Seq<u8>> {
        match self {
            CanonicalBin::Rw(d) => Some(d@),
            CanonicalBin::Ro(b) => Some(b@),
            CanonicalBin::Disabled => None,
        }
    }

    /// The 32 bytes at `height` when present and not all zero.
    pub fn read_hash_bytes(&self, height: u64) -> (r: Option<[u8; 32]>)
        requires
            !(self is Disabled) ==> height * 32 > usize::MAX || height * 32 + 32 <= usize::MAX,
        ensures
            match self.contents() {
                None => r is None,
                Some(c) => if !slot_in_range(c, height as int) {
                    r is None
                } else {
                    match r {
                        None => all_zero(slot(c, height as int)),
                        Some(a) => a@ == slot(c, height as int) && !all_zero(a@),
                    }
                },
            },
    {
        match self {
            CanonicalBin::Rw(d) => d.read_slot_nonzero_bytes(height),
            CanonicalBin::Ro(bytes) => {
                let n = bytes.len();
                let off = match height.checked_mul(32) {
                    Some(o) => o,
                    None => {
                        return None;
                    },
                };
                if off > usize::MAX as u64 {
                    return None;
                }
                read_slice_nonzero(bytes.as_slice(), off as usize)
            },
            CanonicalBin::Disabled => None,
        }
    }

    /// Write `hash` at `height` on a writable index; no change otherwise. On a writable
    /// index a height whose slot end overflows is a `Serialization` error and changes nothing.
    pub fn extend_write(&mut self, height: u64, hash: &Bytes32) -> (r: Result<(), BlockStoreError>)
        ensures
            match *old(self) {
                CanonicalBin::Rw(d) => if ((height as usize) + 1) * 32 <= usize::MAX {
                    r is Ok && final(self).contents() == Some(
                        dense_write(d@, height as usize as int, hash@),
                    )
                } else {
                    r matches Err(BlockStoreError::Serialization(m))
                        && m@ == "canonical.bin write: height overflow"@
                        && final(self).contents() == old(self).contents()
                },
                _ => r is Ok && final(self).contents() == old(self).contents(),
            },
            *old(self) is Rw <==> *final(self) is Rw,
    {
        match self {
            CanonicalBin::Rw(d) => d.write_hash(height, hash),
            _ => Ok(()),
        }
    }

    /// Keep heights `0..=max_height` on a writable index; no change otherwise. On a writable
    /// index a height whose slot end overflows is a `Serialization` error and changes nothing.
    pub fn truncate_to_height(&mut self, max_height: u64) -> (r: Result<(), BlockStoreError>)
        ensures
            match *old(self) {
                CanonicalBin::Rw(d) => if ((max_height as usize) + 1) * 32 <= usize::MAX {
                    r is Ok && final(self).contents() == Some(
                        dense_resize(d@, ((max_height as usize) + 1) * 32),
                    )
                } else {
                    r matches Err(BlockStoreError::Serialization(m))
                        && m@ == "canonical.bin truncate: height overflow"@
                        && final(self).contents() == old(self).contents()
                },
                _ => r is Ok && final(self).contents() == old(self).contents(),
            },
            *old(self) is Rw <==> *final(self) is Rw,
    {
        match self {
            CanonicalBin::Rw(d) => d.truncate(max_height),
            _ => Ok(()),
        }
    }

    /// Switch the index off so lookups use the column family.
    pub fn disable(&mut self)
        ensures
            *final(self) is Disabled,
    {
        *self = CanonicalBin::Disabled;
    }
}

} // verus!
