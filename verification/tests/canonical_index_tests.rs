use dig_blockstore::canonical::{
    canonical_bin_path, canonical_sync_action, dense_bytes_from_rows, read_slice_nonzero,
    CanonicalBin, CanonicalDenseFile, CanonicalSyncAction, CANONICAL_BIN_FILE,
};
use dig_blockstore::{height_key, BlockStoreError, Bytes32};

fn row(h: u64, seed: u8) -> (Vec<u8>, Vec<u8>) {
    (height_key(h).to_vec(), vec![seed; 32])
}

#[test]
fn rebuild_from_rows_fills_gaps_with_zero() {
    let rows = vec![row(0, 1), row(3, 4)];
    let dense = dense_bytes_from_rows(&rows).unwrap();
    assert_eq!(dense.len(), 4 * 32);
    assert!(dense[0..32].iter().all(|&b| b == 1));
    assert!(dense[32..96].iter().all(|&b| b == 0));
    assert!(dense[96..128].iter().all(|&b| b == 4));
}

#[test]
fn rebuild_from_no_rows_is_empty() {
    assert!(dense_bytes_from_rows(&Vec::new()).unwrap().is_empty());
}

#[test]
fn rebuild_last_row_for_a_height_wins() {
    let rows = vec![row(1, 1), row(1, 2)];
    let dense = dense_bytes_from_rows(&rows).unwrap();
    assert_eq!(dense.len(), 64);
    assert!(dense[32..64].iter().all(|&b| b == 2));
}

#[test]
fn rebuild_rejects_malformed_rows() {
    let bad_key = vec![row(0, 1), (vec![1, 2, 3], vec![0; 32])];
    match dense_bytes_from_rows(&bad_key) {
        Err(BlockStoreError::Serialization(m)) => assert!(m.contains("key must be exactly 8 bytes")),
        other => panic!("unexpected {other:?}"),
    }
    let bad_value = vec![(height_key(2).to_vec(), vec![0; 31])];
    match dense_bytes_from_rows(&bad_value) {
        Err(BlockStoreError::Serialization(m)) => assert!(m.contains("value must be exactly 32 bytes")),
        other => panic!("unexpected {other:?}"),
    }
}

#[test]
fn sync_action_follows_file_state() {
    let expected = vec![1u8; 32];
    assert_eq!(canonical_sync_action(&expected, &expected, true, true), CanonicalSyncAction::MapExisting);
    assert_eq!(canonical_sync_action(&expected, &[], false, true), CanonicalSyncAction::RewriteAndMap);
    assert_eq!(canonical_sync_action(&expected, &[], false, false), CanonicalSyncAction::Disabled);
    assert_eq!(canonical_sync_action(&[], &[], false, true), CanonicalSyncAction::CreateEmptyAndMap);
    assert_eq!(canonical_sync_action(&[], &[], false, false), CanonicalSyncAction::Disabled);
    assert_eq!(canonical_sync_action(&[], &[], true, false), CanonicalSyncAction::MapExisting);
}

#[test]
fn canonical_bin_variants() {
    let mut rw = CanonicalBin::Rw(CanonicalDenseFile::new());
    rw.extend_write(2, &Bytes32::new([5u8; 32])).unwrap();
    assert_eq!(rw.read_hash_bytes(2), Some([5u8; 32]));
    assert_eq!(rw.read_hash_bytes(1), None);
    rw.truncate_to_height(1).unwrap();
    assert_eq!(rw.read_hash_bytes(2), None);

    let mut ro = CanonicalBin::Ro(vec![7u8; 32]);
    assert_eq!(ro.read_hash_bytes(0), Some([7u8; 32]));
    ro.extend_write(3, &Bytes32::new([1u8; 32])).unwrap();
    assert_eq!(ro.read_hash_bytes(3), None);
    ro.disable();
    assert_eq!(ro.read_hash_bytes(0), None);
}

#[test]
fn nonzero_window_reads() {
    let mut bytes = vec![0u8; 64];
    assert_eq!(read_slice_nonzero(&bytes, 0), None);
    bytes[40] = 3;
    assert_eq!(read_slice_nonzero(&bytes, 32).unwrap()[8], 3);
    assert_eq!(read_slice_nonzero(&bytes, 33), None);
}

#[test]
fn bin_path_joins_directory() {
    assert_eq!(canonical_bin_path("data/db"), "data/db/canonical.bin");
    assert_eq!(canonical_bin_path("data/db/"), "data/db/canonical.bin");
    assert_eq!(canonical_bin_path(""), CANONICAL_BIN_FILE);
}

#[test]
fn read_at_the_last_addressable_height_is_none() {
    let f = CanonicalDenseFile::from_bytes(vec![1u8; 64]);
    let h = (usize::MAX / 32) as u64;
    assert_eq!(f.read_hash(h).unwrap(), None);
    assert_eq!(CanonicalBin::Disabled.read_hash_bytes(u64::MAX), None);
    assert_eq!(CanonicalBin::Disabled.read_hash_bytes(h), None);
}

#[test]
fn writable_index_reports_height_overflow() {
    let mut rw = CanonicalBin::Rw(CanonicalDenseFile::new());
    rw.extend_write(0, &Bytes32::new([9u8; 32])).unwrap();
    match rw.extend_write(u64::MAX, &Bytes32::new([1u8; 32])) {
        Err(BlockStoreError::Serialization(m)) => assert_eq!(m, "canonical.bin write: height overflow"),
        other => panic!("expected overflow error, got {:?}", other),
    }
    match rw.truncate_to_height(u64::MAX) {
        Err(BlockStoreError::Serialization(m)) => assert_eq!(m, "canonical.bin truncate: height overflow"),
        other => panic!("expected overflow error, got {:?}", other),
    }
    assert_eq!(rw.read_hash_bytes(0), Some([9u8; 32]));
    let mut off = CanonicalBin::Disabled;
    assert!(off.extend_write(u64::MAX, &Bytes32::new([1u8; 32])).is_ok());
}
