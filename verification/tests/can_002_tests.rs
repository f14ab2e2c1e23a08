use dig_blockstore::canonical::CanonicalDenseFile;
use dig_blockstore::Bytes32;

fn distinct_hash(seed: u8) -> Bytes32 {
    let mut b = [0u8; 32];
    b[0] = seed;
    b[31] = seed.wrapping_neg();
    Bytes32::new(b)
}

#[test]
fn test_file_size_matches_height() {
    let mut f = CanonicalDenseFile::new();
    for h in 0u64..100 {
        f.write_hash(h, &distinct_hash(h as u8)).expect("write");
    }
    assert_eq!(f.len_bytes(), 100 * 32);
}

#[test]
fn test_read_write_roundtrip() {
    let mut f = CanonicalDenseFile::new();
    let h = 42u64;
    let want = distinct_hash(7);
    f.write_hash(h, &want).expect("write");
    let got = f.read_hash(h).expect("read").expect("some");
    assert_eq!(got, want);
}

#[test]
fn test_read_beyond_file_returns_none() {
    let mut f = CanonicalDenseFile::new();
    f.write_hash(0, &distinct_hash(1)).expect("write");
    assert!(f.read_hash(1).expect("read").is_none());
}

#[test]
fn test_file_growth_on_write() {
    let mut f = CanonicalDenseFile::new();
    f.write_hash(0, &distinct_hash(9)).expect("write h0");
    assert_eq!(f.len_bytes(), 32);
    f.write_hash(1000, &distinct_hash(3)).expect("write distant height");
    assert_eq!(f.len_bytes(), (1000u64 + 1) as usize * 32);
    assert_eq!(f.read_hash(1000).expect("r").unwrap(), distinct_hash(3));
}

#[test]
fn test_truncation() {
    let mut f = CanonicalDenseFile::new();
    for h in 0u64..100 {
        f.write_hash(h, &distinct_hash(h as u8)).expect("write");
    }
    f.truncate(50).expect("truncate");
    assert_eq!(f.len_bytes(), (50u64 + 1) as usize * 32, "51 slots × 32");
    assert_eq!(f.len_bytes(), 1632);
    assert!(f.read_hash(51).expect("read").is_none());
    assert_eq!(f.read_hash(50).expect("read").unwrap(), distinct_hash(50));
}

#[test]
fn test_dense_array_no_gaps() {
    let mut f = CanonicalDenseFile::new();
    let a = distinct_hash(11);
    let b = distinct_hash(22);
    let c = distinct_hash(33);
    f.write_hash(0, &a).expect("h0");
    f.write_hash(1, &b).expect("h1");
    f.write_hash(2, &c).expect("h2");
    assert_eq!(f.len_bytes(), 96);
    assert_eq!(f.read_hash(0).expect("r0").unwrap(), a);
    assert_eq!(f.read_hash(1).expect("r1").unwrap(), b);
    assert_eq!(f.read_hash(2).expect("r2").unwrap(), c);
}

#[test]
fn dense_layout_places_hash_at_height_times_32() {
    let mut f = CanonicalDenseFile::new();
    f.write_hash(2, &distinct_hash(5)).expect("write");
    let bytes = f.as_bytes();
    assert_eq!(bytes.len(), 96);
    assert!(bytes[..64].iter().all(|&b| b == 0));
    assert_eq!(&bytes[64..96], &distinct_hash(5).to_bytes());
}

#[test]
fn existing_contents_are_read_in_place() {
    let mut raw = vec![0u8; 64];
    raw[32] = 9;
    let f = CanonicalDenseFile::from_bytes(raw);
    assert_eq!(f.len_bytes(), 64);
    assert_eq!(f.read_hash(1).unwrap().unwrap().to_bytes()[0], 9);
    assert_eq!(f.read_slot_nonzero_bytes(0), None);
    assert_eq!(f.read_slot_nonzero_bytes(1).unwrap()[0], 9);
    assert_eq!(f.read_slot_nonzero_bytes(2), None);
}
