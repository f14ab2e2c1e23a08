//! Epoch arithmetic: the height range that makes up one epoch.
use vstd::prelude::*;

verus! {

/// Marker type for epoch wiring; carries no data.
#[derive(Debug, Clone, Copy, PartialEq, Eq, Hash)]
pub struct DigEpochStub;

/// Number of blocks in one epoch.
pub const BLOCKS_PER_EPOCH: u64 = 32;

/// `min(x, u64::MAX)`: the value a saturating `u64` operation yields for `x >= 0`.
pub open spec fn saturate(x: int) -> u64 {
    if x > u64::MAX { u64::MAX } else { x as u64 }
}

/// Inclusive height range `[start, end]` of `epoch`:
/// `start = epoch * BLOCKS_PER_EPOCH` and `end = start + BLOCKS_PER_EPOCH - 1`, both saturating.
pub fn epoch_height_range(epoch: u64) -> (r: (u64, u64))
    ensures
        r.0 == saturate(epoch * BLOCKS_PER_EPOCH),
        r.1 == saturate(r.0 + (BLOCKS_PER_EPOCH - 1)),
{
    let start = if epoch > u64::MAX / BLOCKS_PER_EPOCH {
        u64::MAX
    } else {
        epoch * BLOCKS_PER_EPOCH
    };
    let end = start.saturating_add(BLOCKS_PER_EPOCH - 1);
    (start, end)
}

/// Epochs tile the heights: away from the top of the `u64` range, the epoch after
/// `e` starts right after `e` ends, and every epoch holds exactly `BLOCKS_PER_EPOCH` heights.
pub proof fn lemma_epochs_are_contiguous(e: u64)
    requires
        e < 0x07ff_ffff_ffff_ffff,
    ensures
        saturate(saturate(e * BLOCKS_PER_EPOCH) + (BLOCKS_PER_EPOCH - 1)) + 1 == saturate(
            (e + 1) * BLOCKS_PER_EPOCH,
        ),
        saturate(saturate(e * BLOCKS_PER_EPOCH) + (BLOCKS_PER_EPOCH - 1)) - saturate(
            e * BLOCKS_PER_EPOCH,
        ) + 1 == BLOCKS_PER_EPOCH,
{
}

} // verus!
