//! The block and header types of `dig-block`, as the store sees them: identity and
//! header fields, and their bincode encodings.
//!
//! Blocks are opaque here. What the store reads from them goes through the trusted
//! items below, each tied to a name for what `dig-block` (or `bincode`) computes.
use vstd::prelude::*;

use crate::bytes32::Bytes32;
use crate::types::block_record::HeaderSummary;

verus! {

#[verifier::external_type_specification]
#[verifier::external_body]
pub struct ExL2Block(dig_block::L2Block);

#[verifier::external_type_specification]
#[verifier::external_body]
pub struct ExL2BlockHeader(dig_block::L2BlockHeader);

/// The header a block carries.
pub uninterp spec fn header_of(block: dig_block::L2Block) -> dig_block::L2BlockHeader;

/// The fields of a header the store reads, with its identity hash.
pub uninterp spec fn header_summary(header: dig_block::L2BlockHeader) -> HeaderSummary;

/// bincode encoding of a header.
pub uninterp spec fn header_bincode(header: dig_block::L2BlockHeader) -> Seq<u8>;

/// Header decoded from bincode bytes, if they are a valid encoding.
pub uninterp spec fn header_from_bincode(bytes: Seq<u8>) -> Option<dig_block::L2BlockHeader>;

/// bincode encoding of a block (header and body).
pub uninterp spec fn block_bincode(block: dig_block::L2Block) -> Seq<u8>;

/// Block decoded from bincode bytes, if they are a valid encoding.
pub uninterp spec fn block_from_bincode(bytes: Seq<u8>) -> Option<dig_block::L2Block>;

/// Whether a block's bincode encoding decodes again. It does for every block whose BLS
/// signatures are valid group elements, which includes every block that was itself
/// decoded from bytes; decoding checks each signature, so a signature built unchecked
/// from bytes outside the group makes it fail.
pub open spec fn reencodes(block: dig_block::L2Block) -> bool {
    block_from_bincode(block_bincode(block)) is Some
}

/// Identity of a block: the hash of its header.
pub open spec fn block_hash_of(block: dig_block::L2Block) -> Seq<u8> {
    header_summary(header_of(block)).hash@
}

/// Height of a block, from its header.
pub open spec fn block_height_of(block: dig_block::L2Block) -> u64 {
    header_summary(header_of(block)).height
}

/// Parent hash of a block, from its header.
pub open spec fn block_parent_of(block: dig_block::L2Block) -> Seq<u8> {
    header_summary(header_of(block)).parent_hash@
}

/// The `header` field of an `L2Block`.
#[verifier::external_body]
pub(crate) fn block_header(block: &dig_block::L2Block) -> (r: &dig_block::L2BlockHeader)
    ensures
        *r == header_of(*block),
{
    &block.header
}

/// `L2BlockHeader::hash` (the block identity) with the header fields the store reads,
/// each copied as is.
#[verifier::external_body]
pub(crate) fn summarize_header(h: &dig_block::L2BlockHeader) -> (r: HeaderSummary)
    ensures
        r == header_summary(*h),
{
    HeaderSummary {
        hash: Bytes32 { bytes: h.hash().to_bytes() }, height: h.height, epoch: h.epoch,
        parent_hash: Bytes32 { bytes: h.parent_hash.to_bytes() },
        state_root: Bytes32 { bytes: h.state_root.to_bytes() }, l1_height: h.l1_height,
        l1_hash: Bytes32 { bytes: h.l1_hash.to_bytes() }, timestamp: h.timestamp,
        proposer_index: h.proposer_index, spend_bundle_count: h.spend_bundle_count,
        total_cost: h.total_cost, total_fees: h.total_fees, additions_count: h.additions_count,
        removals_count: h.removals_count,
    }
}

/// `bincode::serialize` of a header. `dig-block` documents header serialization as
/// infallible (its own `to_bytes` expects it), and a header is plain data, so its
/// encoding decodes back to the same header.
#[verifier::external_body]
pub(crate) fn encode_header(header: &dig_block::L2BlockHeader) -> (r: Result<Vec<u8>, String>)
    ensures
        r is Ok,
        r matches Ok(v) ==> v@ == header_bincode(*header),
        r matches Ok(v) ==> header_from_bincode(v@) == Some(*header),
{
    bincode::serialize(header).map_err(|e| e.to_string())
}

/// `bincode::deserialize` into a header; the error text is bincode's.
#[verifier::external_body]
pub(crate) fn decode_header(bytes: &[u8]) -> (r: Result<dig_block::L2BlockHeader, String>)
    ensures
        match header_from_bincode(bytes@) {
            Some(h) => r matches Ok(x) && x == h,
            None => r is Err,
        },
{
    bincode::deserialize(bytes).map_err(|e| e.to_string())
}

/// `bincode::serialize` of a block. `dig-block` documents block serialization as
/// infallible (its own `to_bytes` expects it). Whether the encoding decodes again is not
/// stated here: it does unless a signature in the block lies outside the BLS group, which
/// only an unchecked signature constructor can produce (see `reencodes`).
#[verifier::external_body]
pub(crate) fn encode_block(block: &dig_block::L2Block) -> (r: Result<Vec<u8>, String>)
    ensures
        r is Ok,
        r matches Ok(v) ==> v@ == block_bincode(*block),
{
    bincode::serialize(block).map_err(|e| e.to_string())
}

/// `bincode::deserialize` into a block; the error text is bincode's. When the bytes are
/// the encoding of a block, what decodes carries that block's header: the header is
/// plain data and its fields are encoded as they are. A decoded block passed every
/// signature check, so its own encoding decodes again.
#[verifier::external_body]
pub(crate) fn decode_block(bytes: &[u8]) -> (r: Result<dig_block::L2Block, String>)
    ensures
        match block_from_bincode(bytes@) {
            Some(b) => r matches Ok(x) && x == b,
            None => r is Err,
        },
        r matches Ok(x) ==> forall|b: dig_block::L2Block|
            #[trigger] block_bincode(b) == bytes@ ==> header_of(x) == header_of(b),
        r matches Ok(x) ==> reencodes(x),
{
    bincode::deserialize(bytes).map_err(|e| e.to_string())
}

/// Identity hash of a block (the hash of its header).
pub fn block_hash(block: &dig_block::L2Block) -> (r: Bytes32)
    ensures
        r@ == block_hash_of(*block),
{
    summarize_header(block_header(block)).hash
}

/// Height of a block.
pub fn block_height(block: &dig_block::L2Block) -> (r: u64)
    ensures
        r == block_height_of(*block),
{
    summarize_header(block_header(block)).height
}

} // verus!
