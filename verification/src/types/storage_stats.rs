//! Aggregate counts and disk footprint reported by the store.
use vstd::prelude::*;

verus! {

/// Aggregate storage statistics for monitoring and diagnostics.
#[derive(Debug, Clone, PartialEq, Eq)]
pub struct StorageStats {
    /// Total blocks stored across all forks.
    pub block_count: u64,
    /// Blocks on the current canonical chain only.
    pub canonical_block_count: u64,
    /// Header rows.
    pub header_count: u64,
    /// Checkpoint rows.
    pub checkpoint_count: u64,
    /// Attested-block rows.
    pub attested_count: u64,
    /// Current chain tip height, `None` before genesis.
    pub tip_height: Option<u64>,
    /// Minimum retained height after pruning, `None` if pruning has not run.
    pub min_height: Option<u64>,
    /// Approximate live data size on disk in bytes.
    pub total_size_bytes: u64,
}

impl StorageStats {
    /// The empty report: all counts zero, no tip, no pruning floor.
    pub open spec fn is_empty_report(self) -> bool {
        &&& self.block_count == 0
        &&& self.canonical_block_count == 0
        &&& self.header_count == 0
        &&& self.checkpoint_count == 0
        &&& self.attested_count == 0
        &&& self.tip_height is None
        &&& self.min_height is None
        &&& self.total_size_bytes == 0
    }
}

impl Default for StorageStats {
    fn default() -> (r: StorageStats)
        ensures
            r.is_empty_report(),
    {
        StorageStats {
            block_count: 0,
            canonical_block_count: 0,
            header_count: 0,
            checkpoint_count: 0,
            attested_count: 0,
            tip_height: None,
            min_height: None,
            total_size_bytes: 0,
        }
    }
}

} // verus!
