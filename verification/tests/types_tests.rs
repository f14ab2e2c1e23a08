use dig_block::constants::{EMPTY_ROOT, ZERO_HASH};
use dig_block::L2BlockHeader;
use dig_blockstore::{
    BlockRecord, BlockStatus, BlockStoreConfig, BlockStoreError, Bytes32, ChainTip,
    StorageStats, StoredCheckpoint,
};

fn test_header(height: u64, parent: [u8; 32]) -> L2BlockHeader {
    let mut header = L2BlockHeader::new(
        height, height, dig_block::Bytes32::new(parent), EMPTY_ROOT, EMPTY_ROOT, EMPTY_ROOT,
        EMPTY_ROOT, EMPTY_ROOT, height as u32, ZERO_HASH, 0, 0, 0, 0, 0, 0, 0, ZERO_HASH,
    );
    header.timestamp = height.saturating_mul(10);
    header
}

fn b32(x: dig_block::Bytes32) -> Bytes32 {
    Bytes32::new(x.to_bytes())
}

#[test]
fn test_record_from_header_field_accuracy() {
    let header = test_header(42, [7u8; 32]);
    let rec = BlockRecord::from_header(&header, BlockStatus::SoftFinalized);
    assert_eq!(rec.hash, b32(header.hash()));
    assert_eq!(rec.height, 42);
    assert_eq!(rec.parent_hash, Bytes32::new([7u8; 32]));
    assert_eq!(rec.status, BlockStatus::SoftFinalized);
    assert!(rec.in_canonical_chain);
    assert_eq!(rec.block_size, 0, "from_header always sets block_size to 0");
    assert_eq!(rec.epoch, 42);
    assert_eq!(rec.l1_height, 42);
    assert_eq!(rec.timestamp, 420);
    assert_eq!(rec.state_root, b32(EMPTY_ROOT));
    assert_eq!(rec.l1_hash, b32(ZERO_HASH));
}

#[test]
fn orphaned_and_rejected_records_are_not_canonical() {
    let header = test_header(3, [1u8; 32]);
    for (status, canonical) in [
        (BlockStatus::Pending, true),
        (BlockStatus::Validated, true),
        (BlockStatus::HardFinalized, true),
        (BlockStatus::Orphaned, false),
        (BlockStatus::Rejected, false),
    ] {
        let rec = BlockRecord::from_header(&header, status);
        assert_eq!(rec.in_canonical_chain, canonical);
        assert_eq!(status.is_canonical(), canonical);
        assert_eq!(rec.timestamp, 30);
    }
}

#[test]
fn chain_tip_encoding_is_hash_then_le_height() {
    let tip = ChainTip { hash: Bytes32::new([0xab; 32]), height: 0x0102 };
    let bytes = tip.to_bytes();
    assert_eq!(&bytes[..32], &[0xab; 32]);
    assert_eq!(&bytes[32..], &[0x02, 0x01, 0, 0, 0, 0, 0, 0]);
    assert_eq!(ChainTip::from_bytes(&bytes).unwrap(), tip);
}

#[test]
fn chain_tip_round_trips_extreme_heights() {
    for height in [0u64, 1, u64::MAX] {
        let tip = ChainTip { hash: Bytes32::new([9; 32]), height };
        assert_eq!(ChainTip::from_bytes(&tip.to_bytes()).unwrap(), tip);
    }
}

#[test]
fn chain_tip_rejects_wrong_length() {
    match ChainTip::from_bytes(&[0u8; 39]) {
        Err(BlockStoreError::InvalidData(m)) => assert_eq!(m, "ChainTip requires 40 bytes, got 39"),
        other => panic!("unexpected {other:?}"),
    }
    assert!(ChainTip::from_bytes(&[0u8; 41]).is_err());
}

#[test]
fn defaults() {
    let s = StorageStats::default();
    assert_eq!(s.block_count, 0);
    assert_eq!(s.tip_height, None);
    assert_eq!(s.min_height, None);
    assert_eq!(StoredCheckpoint::default(), StoredCheckpoint {});
    let c = BlockStoreConfig::default();
    assert_eq!(c.path, "data/blockstore");
    assert_eq!(c.block_cache_capacity, 1000);
    assert_eq!(c.header_cache_capacity, 2000);
    assert_eq!(c.warm_cache_depth, 64);
    assert_eq!(c.max_decompressed_block_bytes, 134_217_728);
    assert_eq!(c.readahead_size, 2_097_152);
    assert!(c.warm_cache_on_open);
    assert!(c.zstd_dictionary_override.is_none());
}

#[test]
fn default_hash_is_zero() {
    assert_eq!(Bytes32::default().to_bytes(), [0u8; 32]);
    assert!(Bytes32::new([1; 32]).same_as(&Bytes32::new([1; 32])));
    assert!(!Bytes32::new([1; 32]).same_as(&Bytes32::default()));
}
