use dig_blockstore::{decode_epoch_key, decode_height_key, epoch_key, hash_key, height_key, metadata_key, Bytes32};

#[test]
fn height_key_is_big_endian() {
    assert_eq!(height_key(1), [0, 0, 0, 0, 0, 0, 0, 1]);
    assert_eq!(height_key(0x0102_0304_0506_0708), [1, 2, 3, 4, 5, 6, 7, 8]);
    assert_eq!(height_key(u64::MAX), [0xff; 8]);
}

#[test]
fn height_key_round_trip() {
    for h in [0u64, 1, 255, 256, 65_535, 1 << 40, u64::MAX - 1, u64::MAX] {
        assert_eq!(decode_height_key(&height_key(h)), h);
        assert_eq!(decode_epoch_key(&epoch_key(h)), h);
    }
}

#[test]
fn height_keys_sort_like_heights() {
    let heights = [0u64, 1, 2, 255, 256, 257, 65_536, 1 << 32, u64::MAX];
    for a in heights {
        for b in heights {
            assert_eq!(a < b, height_key(a) < height_key(b));
        }
    }
}

#[test]
fn hash_and_metadata_keys() {
    let h = Bytes32::new([7u8; 32]);
    assert_eq!(hash_key(&h), &[7u8; 32]);
    assert_eq!(metadata_key("tip"), b"tip");
}
