//! Outcome of a chain reorganization.
use vstd::prelude::*;

use crate::bytes32::Bytes32;
use crate::types::chain_tip::ChainTip;

verus! {

/// Result of a fork switch: what left the canonical chain, what joined it, and the new tip.
#[derive(Debug, Clone)]
pub struct ReorgResult {
    /// Hashes removed from the canonical chain, in descending height order (tip first).
    pub reverted: Vec<Bytes32>,
    /// Hashes added to the canonical chain, in ascending height order (oldest first).
    pub applied: Vec<Bytes32>,
    /// The new chain tip (the last block in `applied`).
    pub new_tip: ChainTip,
}

} // verus!
