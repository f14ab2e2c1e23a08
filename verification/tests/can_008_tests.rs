use dig_blockstore::canonical::CanonicalDenseFile;
use dig_blockstore::{BlockStoreError, Bytes32};

fn open_tmp() -> CanonicalDenseFile {
    CanonicalDenseFile::new()
}

fn distinct_hash(seed: u8) -> Bytes32 {
    let mut b = [0u8; 32];
    b[0] = seed;
    b[31] = seed.wrapping_add(1);
    Bytes32::new(b)
}

#[test]
fn test_read_hash_offset_overflow_errors() {
    let f = open_tmp();
    let err = f
        .read_hash(u64::MAX)
        .expect_err("u64::MAX * 32 must overflow and error");
    match err {
        BlockStoreError::Serialization(msg) => {
            assert!(msg.contains("overflow"), "expected overflow message, got {msg}");
        }
        other => panic!("expected Serialization overflow, got {other:?}"),
    }
}

#[test]
fn test_write_hash_offset_overflow_errors() {
    let mut f = open_tmp();
    let err = f
        .write_hash(u64::MAX, &distinct_hash(1))
        .expect_err("(u64::MAX + 1) * 32 must overflow and error");
    assert!(
        matches!(err, BlockStoreError::Serialization(ref m) if m.contains("overflow")),
        "expected write overflow Serialization error, got {err:?}"
    );
}

#[test]
fn test_truncate_offset_overflow_errors() {
    let mut f = open_tmp();
    let err = f
        .truncate(u64::MAX)
        .expect_err("(u64::MAX + 1) * 32 must overflow and error");
    assert!(
        matches!(err, BlockStoreError::Serialization(ref m) if m.contains("overflow")),
        "expected truncate overflow Serialization error, got {err:?}"
    );
}

#[test]
fn test_read_hash_in_range_zero_slot_is_some() {
    let mut f = open_tmp();
    f.write_hash(5, &distinct_hash(9)).expect("write h5 (grows file)");
    let slot2 = f.read_hash(2).expect("read in-range slot 2");
    assert_eq!(
        slot2,
        Some(Bytes32::default()),
        "in-range never-written slot must read as Some(all-zero), not None"
    );
    assert!(
        f.read_hash(6).expect("read past tail").is_none(),
        "height beyond the mapped tail must be None"
    );
}

#[test]
fn test_write_hash_in_place_overwrite_no_growth() {
    let mut f = open_tmp();
    f.write_hash(0, &distinct_hash(1)).expect("write v1");
    f.write_hash(1, &distinct_hash(2)).expect("write h1 grows to 2 slots");
    let len_before = f.len_bytes();
    f.write_hash(0, &distinct_hash(3)).expect("overwrite h0 in place");
    assert_eq!(f.len_bytes(), len_before, "in-place overwrite must not grow file");
    assert_eq!(f.read_hash(0).expect("r0").unwrap(), distinct_hash(3));
    assert_eq!(f.read_hash(1).expect("r1").unwrap(), distinct_hash(2));
}

#[test]
fn test_truncate_to_current_tip_preserves_data() {
    let mut f = open_tmp();
    for h in 0u64..10 {
        f.write_hash(h, &distinct_hash(h as u8)).expect("write");
    }
    f.truncate(9).expect("truncate to current tip");
    assert_eq!(f.len_bytes(), 10 * 32, "truncate to tip keeps all 10 slots");
    for h in 0u64..10 {
        assert_eq!(f.read_hash(h).expect("read").unwrap(), distinct_hash(h as u8));
    }
}

#[test]
fn truncate_above_length_extends_with_zero_slots() {
    let mut f = open_tmp();
    f.write_hash(0, &distinct_hash(4)).expect("write");
    f.truncate(3).expect("truncate");
    assert_eq!(f.len_bytes(), 128);
    assert_eq!(f.read_hash(3).unwrap(), Some(Bytes32::default()));
    assert_eq!(f.read_hash(0).unwrap(), Some(distinct_hash(4)));
}
