use dig_block::constants::{EMPTY_ROOT, ZERO_HASH};
use dig_blockstore::cf_options::{
    all_column_families, cf_name, cf_tuning, header_compaction_decision, CompactionDecision,
    CompactionStyle,
};
use dig_blockstore::constants::ALL_COLUMN_FAMILIES;
use dig_blockstore::range::{canonical_scan_bounds, canonical_value_hash, collect_canonical_pairs, RangeCursor};
use dig_blockstore::store::ColumnFamilyId;
use dig_blockstore::{epoch_height_range, height_key, BlockStoreError, Bytes32, BLOCKS_PER_EPOCH};

#[test]
fn epoch_ranges() {
    assert_eq!(BLOCKS_PER_EPOCH, 32);
    assert_eq!(epoch_height_range(0), (0, 31));
    assert_eq!(epoch_height_range(3), (96, 127));
    assert_eq!(epoch_height_range(u64::MAX), (u64::MAX, u64::MAX));
}

#[test]
fn column_family_tuning() {
    let all = all_column_families();
    assert_eq!(all.len(), ALL_COLUMN_FAMILIES.len());
    for (cf, name) in all.iter().zip(ALL_COLUMN_FAMILIES.iter()) {
        assert_eq!(cf_name(*cf), *name);
    }
    let b = cf_tuning(ColumnFamilyId::Blocks, true, true);
    assert_eq!(b.compaction, CompactionStyle::Universal);
    assert!(b.blob_files && !b.bloom_filter && !b.prune_filter);
    assert!(!cf_tuning(ColumnFamilyId::Blocks, false, false).blob_files);
    let h = cf_tuning(ColumnFamilyId::Headers, true, true);
    assert!(h.bloom_filter && h.compression_off && h.prune_filter);
    assert!(!cf_tuning(ColumnFamilyId::Headers, true, false).prune_filter);
    assert_eq!(cf_tuning(ColumnFamilyId::Checkpoints, true, true).target_file_size_base, Some(256 * 1024 * 1024));
    assert!(cf_tuning(ColumnFamilyId::Canonical, true, true).compression_off);
}

fn header_row(height: u64) -> Vec<u8> {
    let h = dig_block::L2BlockHeader::new(
        height, 0, ZERO_HASH, EMPTY_ROOT, EMPTY_ROOT, EMPTY_ROOT, EMPTY_ROOT, EMPTY_ROOT, 0,
        ZERO_HASH, 0, 0, 0, 0, 0, 0, 0, ZERO_HASH,
    );
    h.to_bytes()
}

#[test]
fn compaction_filter_rule() {
    assert_eq!(header_compaction_decision(0, &header_row(1)), CompactionDecision::Keep);
    assert_eq!(header_compaction_decision(10, &header_row(9)), CompactionDecision::Remove);
    assert_eq!(header_compaction_decision(10, &header_row(10)), CompactionDecision::Keep);
    assert_eq!(header_compaction_decision(10, b"junk"), CompactionDecision::Keep);
    assert_eq!(header_compaction_decision(0, b"junk"), CompactionDecision::Keep);
}

fn row(h: u64, seed: u8) -> (Vec<u8>, Vec<u8>) {
    (height_key(h).to_vec(), vec![seed; 32])
}

#[test]
fn range_scan_keeps_heights_in_range() {
    let rows = vec![row(8, 8), row(10, 10), row(11, 11), row(12, 12), row(50, 50)];
    let pairs = collect_canonical_pairs(&rows, 10, 12).unwrap();
    let heights: Vec<u64> = pairs.iter().map(|p| p.0).collect();
    assert_eq!(heights, vec![10, 11, 12]);
    assert_eq!(pairs[0].1, Bytes32::new([10; 32]));
    assert!(collect_canonical_pairs(&rows, 5, 4).unwrap().is_empty());
    let stops = vec![row(20, 1), (vec![1], vec![])];
    assert!(collect_canonical_pairs(&stops, 0, 10).unwrap().is_empty());
    match collect_canonical_pairs(&vec![(vec![1], vec![])], 0, 10) {
        Err(BlockStoreError::Serialization(m)) => assert!(m.contains("key must be exactly 8 bytes")),
        other => panic!("unexpected {other:?}"),
    }
}

#[test]
fn range_bounds_and_cursor() {
    let (lo, hi) = canonical_scan_bounds(10, 50);
    assert_eq!(lo, height_key(10));
    assert_eq!(hi, Some(height_key(51)));
    assert_eq!(canonical_scan_bounds(0, u64::MAX).1, None);
    let mut c = RangeCursor::new(vec![(1, Bytes32::new([1; 32])), (2, Bytes32::new([2; 32]))]);
    assert_eq!(c.next_pair().unwrap().0, 1);
    assert_eq!(c.next_pair().unwrap().0, 2);
    assert!(c.next_pair().is_none());
    assert!(canonical_value_hash(&vec![0; 31]).is_none());
    assert_eq!(canonical_value_hash(&vec![4; 32]), Some(Bytes32::new([4; 32])));
}
