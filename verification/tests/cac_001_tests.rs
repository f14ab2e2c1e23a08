use dig_block::constants::{EMPTY_ROOT, ZERO_HASH};
use dig_block::{L2Block, L2BlockHeader, Signature};
use dig_blockstore::cache::{per_shard_capacity, shard_index, ShardedBlockCache};
use dig_blockstore::{BlockStoreConfig, Bytes32};

fn test_block(height: u64) -> L2Block {
    let header = L2BlockHeader::new(
        height, height, ZERO_HASH, EMPTY_ROOT, EMPTY_ROOT, EMPTY_ROOT, EMPTY_ROOT, EMPTY_ROOT,
        height as u32, ZERO_HASH, 0, 0, 0, 0, 0, 0, 0, ZERO_HASH,
    );
    L2Block::new(header, vec![], vec![], Signature::default())
}

#[test]
fn test_shard_count_default() {
    assert_eq!(BlockStoreConfig::default().cache_shards, 16);
}

#[test]
fn test_shard_count_configurable() {
    let cfg = BlockStoreConfig {
        cache_shards: 8,
        ..Default::default()
    };
    assert_eq!(cfg.cache_shards, 8);
}

#[test]
fn test_shard_capacity_distribution() {
    let mut cache = ShardedBlockCache::new(160, 16);
    let mut blocks = Vec::new();
    for i in 0u8..11 {
        let mut hash_arr = [0u8; 32];
        hash_arr[1] = i;
        let hash = Bytes32::new(hash_arr);
        let block = test_block(i as u64);
        cache.insert(hash, block.clone());
        blocks.push((hash, block));
    }
    assert!(
        cache.get_clone(&blocks[0].0).is_none(),
        "LRU entry should be evicted when shard exceeds capacity"
    );
    assert!(cache.get_clone(&blocks[10].0).is_some());
}

#[test]
fn test_shard_selection_by_first_byte() {
    let mut cache = ShardedBlockCache::new(100, 16);
    let mut arr_a = [0u8; 32];
    arr_a[0] = 0;
    let mut arr_b = [0u8; 32];
    arr_b[0] = 1;
    let ha = Bytes32::new(arr_a);
    let hb = Bytes32::new(arr_b);
    cache.insert(ha, test_block(0));
    cache.insert(hb, test_block(1));
    cache.remove(&ha);
    assert!(cache.get_clone(&ha).is_none(), "removed from shard 0");
    assert!(cache.get_clone(&hb).is_some(), "shard 1 unaffected by shard 0 removal");
}

#[test]
fn test_remove_entry() {
    let mut cache = ShardedBlockCache::new(10, 2);
    let hash = Bytes32::new([0x42; 32]);
    cache.insert(hash, test_block(0));
    assert!(cache.get_clone(&hash).is_some());
    cache.remove(&hash);
    assert!(cache.get_clone(&hash).is_none());
}

#[test]
fn cached_block_is_the_one_inserted() {
    let mut cache = ShardedBlockCache::new(10, 2);
    let b = test_block(7);
    let hash = Bytes32::new([3u8; 32]);
    cache.insert(hash, b.clone());
    assert_eq!(cache.get_clone(&hash).unwrap().hash(), b.hash());
}

#[test]
fn shard_index_and_capacity() {
    let mut k = [0u8; 32];
    k[0] = 37;
    let key = Bytes32::new(k);
    assert_eq!(shard_index(&key, 16), 37 & 15);
    assert_eq!(shard_index(&key, 10), 7);
    assert_eq!(shard_index(&key, 1), 0);
    assert_eq!(per_shard_capacity(160, 16), 10);
    assert_eq!(per_shard_capacity(5, 16), 1);
    let cache = ShardedBlockCache::new(10, 0);
    drop(cache);
}

#[test]
fn full_shard_evicts_only_its_least_recent_key() {
    let mut cache = ShardedBlockCache::new(3, 1);
    let keys: Vec<Bytes32> = (1u8..=4).map(|i| Bytes32::new([i; 32])).collect();
    for (i, k) in keys.iter().take(3).enumerate() {
        cache.insert(*k, test_block(i as u64));
    }
    assert!(cache.get_clone(&keys[0]).is_some(), "touch the oldest so it becomes most recent");
    cache.insert(keys[3], test_block(3));
    let held: Vec<bool> = keys.iter().map(|k| cache.get_clone(k).is_some()).collect();
    assert_eq!(held, vec![true, false, true, true]);
    let got = cache.get_clone(&keys[3]).unwrap();
    assert_eq!(got.hash(), test_block(3).hash());
}
