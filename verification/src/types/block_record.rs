//! In-memory block metadata derived from a header; never persisted.
use vstd::prelude::*;

use crate::block::{header_summary, summarize_header};
use crate::bytes32::Bytes32;

verus! {

/// Lifecycle status of a block.
#[derive(Debug, Clone, Copy, PartialEq, Eq)]
pub enum BlockStatus {
    /// Awaiting validation / attestation progress.
    Pending,
    /// Valid locally; not yet soft-final.
    Validated,
    /// Enough validator stake signed; not yet checkpointed.
    SoftFinalized,
    /// Confirmed via checkpoint.
    HardFinalized,
    /// Superseded on a competing fork.
    Orphaned,
    /// Failed validation.
    Rejected,
}

impl BlockStatus {
    /// Every status except `Orphaned` and `Rejected` counts toward canonical progress.
    pub open spec fn canonical(self) -> bool {
        !(self is Orphaned || self is Rejected)
    }

    /// Whether a block with this status belongs to the canonical chain view.
    pub fn is_canonical(&self) -> (r: bool)
        ensures
            r == self.canonical(),
    {
        match self {
            BlockStatus::Orphaned | BlockStatus::Rejected => false,
            _ => true,
        }
    }
}

/// The header fields a block record is built from, with the header's identity hash.
#[derive(Debug, Clone, Copy, PartialEq, Eq)]
pub struct HeaderSummary {
    pub hash: Bytes32,
    pub height: u64,
    pub epoch: u64,
    pub parent_hash: Bytes32,
    pub state_root: Bytes32,
    pub l1_height: u32,
    pub l1_hash: Bytes32,
    pub timestamp: u64,
    pub proposer_index: u32,
    pub spend_bundle_count: u32,
    pub total_cost: u64,
    pub total_fees: u64,
    pub additions_count: u32,
    pub removals_count: u32,
}

/// In-memory summary of block metadata for caches and chain helpers.
#[derive(Debug, Clone, Copy, PartialEq, Eq)]
pub struct BlockRecord {
    pub hash: Bytes32,
    pub height: u64,
    pub epoch: u64,
    pub parent_hash: Bytes32,
    /// Derived from the status: everything but orphaned and rejected blocks.
    pub in_canonical_chain: bool,
    pub status: BlockStatus,
    pub timestamp: u64,
    pub proposer_index: u32,
    pub spend_bundle_count: u32,
    pub total_cost: u64,
    pub total_fees: u64,
    pub additions_count: u32,
    pub removals_count: u32,
    /// Serialized block size when known; records built from headers carry 0.
    pub block_size: u64,
    pub l1_height: u32,
    pub l1_hash: Bytes32,
    pub state_root: Bytes32,
}

impl BlockRecord {
    /// The record built from `header` with lifecycle `status`.
    pub open spec fn of_header(header: HeaderSummary, status: BlockStatus) -> BlockRecord {
        BlockRecord {
            hash: header.hash,
            height: header.height,
            epoch: header.epoch,
            parent_hash: header.parent_hash,
            in_canonical_chain: status.canonical(),
            status,
            timestamp: header.timestamp,
            proposer_index: header.proposer_index,
            spend_bundle_count: header.spend_bundle_count,
            total_cost: header.total_cost,
            total_fees: header.total_fees,
            additions_count: header.additions_count,
            removals_count: header.removals_count,
            block_size: 0,
            l1_height: header.l1_height,
            l1_hash: header.l1_hash,
            state_root: header.state_root,
        }
    }

    /// A record built from a header carries every header field unchanged, in the field of
    /// the same name, the given status, the canonical flag of that status (everything but
    /// orphaned and rejected blocks) and a block size of 0.
    pub proof fn lemma_record_copies_header(header: HeaderSummary, status: BlockStatus)
        ensures
            ({
                let r = BlockRecord::of_header(header, status);
                &&& r.hash == header.hash && r.height == header.height && r.epoch == header.epoch
                &&& r.parent_hash == header.parent_hash && r.state_root == header.state_root
                &&& r.l1_height == header.l1_height && r.l1_hash == header.l1_hash
                &&& r.timestamp == header.timestamp && r.proposer_index == header.proposer_index
                &&& r.spend_bundle_count == header.spend_bundle_count
                &&& r.total_cost == header.total_cost && r.total_fees == header.total_fees
                &&& r.additions_count == header.additions_count
                &&& r.removals_count == header.removals_count
                &&& r.status == status
                &&& r.in_canonical_chain == !(status is Orphaned || status is Rejected)
                &&& r.block_size == 0
            }),
    {
    }

    /// Build a record from a header plus lifecycle status: header fields copied,
    /// canonical flag from the status, block size 0.
    pub fn from_header(header: &dig_block::L2BlockHeader, status: BlockStatus) -> (r: BlockRecord)
        ensures
            r == BlockRecord::of_header(header_summary(*header), status),
            ({
                let h = header_summary(*header);
                &&& r.hash == h.hash && r.height == h.height && r.epoch == h.epoch
                &&& r.parent_hash == h.parent_hash && r.state_root == h.state_root
                &&& r.l1_height == h.l1_height && r.l1_hash == h.l1_hash
                &&& r.timestamp == h.timestamp && r.proposer_index == h.proposer_index
                &&& r.spend_bundle_count == h.spend_bundle_count
                &&& r.total_cost == h.total_cost && r.total_fees == h.total_fees
                &&& r.additions_count == h.additions_count && r.removals_count == h.removals_count
                &&& r.status == status && r.in_canonical_chain == !(status is Orphaned || status is Rejected)
                &&& r.block_size == 0
            }),
    {
        let header = summarize_header(header);
        let in_canonical_chain = status.is_canonical();
        BlockRecord {
            hash: header.hash,
            height: header.height,
            epoch: header.epoch,
            parent_hash: header.parent_hash,
            in_canonical_chain,
            status,
            timestamp: header.timestamp,
            proposer_index: header.proposer_index,
            spend_bundle_count: header.spend_bundle_count,
            total_cost: header.total_cost,
            total_fees: header.total_fees,
            additions_count: header.additions_count,
            removals_count: header.removals_count,
            block_size: 0,
            l1_height: header.l1_height,
            l1_hash: header.l1_hash,
            state_root: header.state_root,
        }
    }
}

} // verus!
