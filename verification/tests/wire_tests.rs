use dig_block::constants::{EMPTY_ROOT, ZERO_HASH};
use dig_block::{L2Block, L2BlockHeader, Signature};
use dig_blockstore::{block_from_wire_bytes, block_to_wire_bytes, BlockStoreError};

fn test_block(height: u64) -> L2Block {
    let header = L2BlockHeader::new(
        height, height, ZERO_HASH, EMPTY_ROOT, EMPTY_ROOT, EMPTY_ROOT, EMPTY_ROOT, EMPTY_ROOT,
        height as u32, ZERO_HASH, 0, 0, 0, 0, 0, 0, 0, ZERO_HASH,
    );
    L2Block::new(header, vec![], vec![], Signature::default())
}

#[test]
fn wire_round_trip() {
    let b = test_block(12);
    let bytes = block_to_wire_bytes(&b).unwrap();
    assert!(!bytes.is_empty());
    assert_ne!(&bytes[..4], &[0x28, 0xb5, 0x2f, 0xfd]);
    let back = block_from_wire_bytes(&bytes).unwrap();
    assert_eq!(back.hash(), b.hash());
}

#[test]
fn wire_rejects_trailing_and_truncated_bytes() {
    let mut bytes = block_to_wire_bytes(&test_block(1)).unwrap();
    bytes.push(0);
    assert!(matches!(block_from_wire_bytes(&bytes), Err(BlockStoreError::Serialization(_))));
    assert!(matches!(block_from_wire_bytes(&bytes[..10]), Err(BlockStoreError::Serialization(_))));
}
