//! Checkpoint record persisted per epoch.
use vstd::prelude::*;

verus! {

/// Stored representation in the checkpoint column family.
#[derive(Debug, Clone, Copy, PartialEq, Eq)]
pub struct StoredCheckpoint {}

impl Default for StoredCheckpoint {
    fn default() -> (r: StoredCheckpoint)
        ensures
            r == (StoredCheckpoint {}),
    {
        StoredCheckpoint {}
    }
}

} // verus!
