//! Store configuration: path, cache sizes, engine tuning, compression, pipeline.
use vstd::prelude::*;

use crate::text::owned;

verus! {

/// Configuration for opening or creating a block store.
#[derive(Debug, Clone)]
pub struct BlockStoreConfig {
    /// Root directory of the database files.
    pub path: String,
    /// Max blocks in the sharded block cache.
    pub block_cache_capacity: usize,
    /// Max headers in the sharded header cache.
    pub header_cache_capacity: usize,
    /// Shard count for the block and header caches.
    pub cache_shards: usize,
    /// Preload recent canonical blocks on open.
    pub warm_cache_on_open: bool,
    /// Number of trailing canonical heights, ending at the tip, to warm; zero warms none.
    pub warm_cache_depth: u64,
    /// Engine memtable budget per column family (bytes).
    pub write_buffer_size: usize,
    /// Engine block cache (bytes).
    pub block_cache_size: usize,
    /// File descriptor budget.
    pub max_open_files: i32,
    /// Route large block values to blob files.
    pub enable_blob_db: bool,
    /// Application-level zstd on block payloads.
    pub compress_blocks: bool,
    /// Zstd level.
    pub compression_level: i32,
    /// Use a trained dictionary once enough blocks exist.
    pub use_compression_dict: bool,
    /// Cap on a decompressed block payload (bytes).
    pub max_decompressed_block_bytes: usize,
    /// Dictionary injected instead of the stored one.
    pub zstd_dictionary_override: Option<Vec<u8>>,
    /// Max blocks per pipeline write batch.
    pub write_pipeline_batch_size: usize,
    /// Partial-batch flush timer (milliseconds).
    pub write_pipeline_flush_ms: u64,
    /// Bounded pipeline channel depth.
    pub write_pipeline_channel_capacity: usize,
    /// Sync the write-ahead log on every write.
    pub sync_writes: bool,
    /// Sequential readahead hint (bytes).
    pub readahead_size: usize,
    /// Height-to-hash cache entries.
    pub canonical_height_cache_capacity: usize,
    /// Hash-to-height cache entries.
    pub hash_to_height_cache_capacity: usize,
    /// Register compaction-time pruning.
    pub enable_compaction_pruning: bool,
    /// Pruning floor override.
    pub min_retained_height: Option<u64>,
}

impl BlockStoreConfig {
    /// The documented defaults, path aside.
    pub open spec fn has_default_tuning(self) -> bool {
        &&& self.block_cache_capacity == 1000
        &&& self.header_cache_capacity == 2000
        &&& self.cache_shards == 16
        &&& self.warm_cache_on_open
        &&& self.warm_cache_depth == 64
        &&& self.write_buffer_size == 67_108_864
        &&& self.block_cache_size == 134_217_728
        &&& self.max_open_files == 1000
        &&& self.enable_blob_db
        &&& self.compress_blocks
        &&& self.compression_level == 3
        &&& self.use_compression_dict
        &&& self.max_decompressed_block_bytes == 134_217_728
        &&& self.zstd_dictionary_override is None
        &&& self.write_pipeline_batch_size == 64
        &&& self.write_pipeline_flush_ms == 100
        &&& self.write_pipeline_channel_capacity == 256
        &&& !self.sync_writes
        &&& self.readahead_size == 2_097_152
        &&& self.canonical_height_cache_capacity == 10_000
        &&& self.hash_to_height_cache_capacity == 10_000
        &&& !self.enable_compaction_pruning
        &&& self.min_retained_height is None
    }
}

/// The production defaults listed in the configuration table of README.md. Cache warming is
/// on: a node reopening its store serves the recent chain from memory from the first read,
/// and callers that want cold caches (tests measuring cache misses) switch it off
/// explicitly, as the test configuration does.
impl Default for BlockStoreConfig {
    fn default() -> (r: BlockStoreConfig)
        ensures
            r.has_default_tuning(),
            r.path@ == "data/blockstore"@,
    {
        BlockStoreConfig {
            path: owned("data/blockstore"),
            block_cache_capacity: 1000,
            header_cache_capacity: 2000,
            cache_shards: 16,
            warm_cache_on_open: true,
            warm_cache_depth: 64,
            write_buffer_size: 67_108_864,
            block_cache_size: 134_217_728,
            max_open_files: 1000,
            enable_blob_db: true,
            compress_blocks: true,
            compression_level: 3,
            use_compression_dict: true,
            max_decompressed_block_bytes: 134_217_728,
            zstd_dictionary_override: None,
            write_pipeline_batch_size: 64,
            write_pipeline_flush_ms: 100,
            write_pipeline_channel_capacity: 256,
            sync_writes: false,
            readahead_size: 2_097_152,
            canonical_height_cache_capacity: 10_000,
            hash_to_height_cache_capacity: 10_000,
            enable_compaction_pruning: false,
            min_retained_height: None,
        }
    }
}

} // verus!
