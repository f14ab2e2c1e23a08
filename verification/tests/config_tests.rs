use dig_blockstore::BlockStoreConfig;

#[test]
fn test_header_cache_default_capacity() {
    assert_eq!(BlockStoreConfig::default().header_cache_capacity, 2000);
}

#[test]
fn test_header_cache_configurable_capacity() {
    let cfg = BlockStoreConfig {
        header_cache_capacity: 5000,
        ..Default::default()
    };
    assert_eq!(cfg.header_cache_capacity, 5000);
}

#[test]
fn test_canonical_height_cache_default_capacity() {
    assert_eq!(
        BlockStoreConfig::default().canonical_height_cache_capacity,
        10_000
    );
}

#[test]
fn test_hash_to_height_default_capacity() {
    assert_eq!(
        BlockStoreConfig::default().hash_to_height_cache_capacity,
        10_000
    );
}
