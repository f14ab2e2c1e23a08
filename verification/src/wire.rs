//! Chia streamable wire encoding of blocks, for gossip and peer interop.
//!
//! Distinct from storage (compressed bincode): this is the structure-only,
//! big-endian, length-prefixed encoding the block type itself defines.
use chia_traits::Streamable;
use vstd::prelude::*;

use crate::block::header_of;
use crate::error::BlockStoreError;
use crate::text::concat;

verus! {

/// Streamable wire encoding of a block, if the encoder accepts it.
pub uninterp spec fn block_wire(block: dig_block::L2Block) -> Option<Seq<u8>>;

/// Block decoded from bytes that are exactly one well-formed wire encoding (nothing after it).
pub uninterp spec fn block_from_wire(bytes: Seq<u8>) -> Option<dig_block::L2Block>;

/// `Streamable::stream` of a block into a fresh buffer; the error text is the encoder's.
#[verifier::external_body]
fn stream_block(block: &dig_block::L2Block) -> (r: Result<Vec<u8>, String>)
    ensures
        match block_wire(*block) {
            Some(b) => r matches Ok(v) && v@ == b,
            None => r is Err,
        },
{
    let mut buf = Vec::new();
    block.stream(&mut buf).map(|_| buf).map_err(|e| e.to_string())
}

/// `Streamable::from_bytes` for a block (the trait method, not the type's own bincode
/// `from_bytes`): succeeds exactly on a well-formed encoding with nothing after it. When
/// the bytes are the wire encoding of a block, what decodes carries that block's header
/// (header fields are streamed as they are, in declaration order).
#[verifier::external_body]
fn block_from_bytes(bytes: &[u8]) -> (r: Result<dig_block::L2Block, String>)
    ensures
        match block_from_wire(bytes@) {
            Some(b) => r matches Ok(x) && x == b,
            None => r is Err,
        },
        r matches Ok(x) ==> forall|b: dig_block::L2Block|
            #[trigger] block_wire(b) == Some(bytes@) ==> header_of(x) == header_of(b),
{
    <dig_block::L2Block as Streamable>::from_bytes(bytes).map_err(|e| e.to_string())
}

/// Serialize a block for the wire; an encoder failure is a `Serialization` error.
pub fn block_to_wire_bytes(block: &dig_block::L2Block) -> (r: Result<Vec<u8>, BlockStoreError>)
    ensures
        match block_wire(*block) {
            Some(b) => r matches Ok(v) && v@ == b,
            None => r matches Err(BlockStoreError::Serialization(_)),
        },
{
    match stream_block(block) {
        Ok(buf) => Ok(buf),
        Err(e) => Err(BlockStoreError::Serialization(concat("wire serialization failed: ", e.as_str()))),
    }
}

/// Decode a block from wire bytes; malformed input (including trailing bytes) is a
/// `Serialization` error. Bytes that `block_to_wire_bytes` produced for `b` decode, when
/// they decode, to a block with `b`'s header and hence `b`'s hash.
pub fn block_from_wire_bytes(bytes: &[u8]) -> (r: Result<dig_block::L2Block, BlockStoreError>)
    ensures
        match block_from_wire(bytes@) {
            Some(b) => r matches Ok(x) && x == b,
            None => r matches Err(BlockStoreError::Serialization(_)),
        },
        r matches Ok(x) ==> forall|b: dig_block::L2Block|
            #[trigger] block_wire(b) == Some(bytes@) ==> header_of(x) == header_of(b),
{
    match block_from_bytes(bytes) {
        Ok(b) => Ok(b),
        Err(e) => Err(BlockStoreError::Serialization(concat("wire deserialization failed: ", e.as_str()))),
    }
}

} // verus!
