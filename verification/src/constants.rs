//! Column family names, metadata keys and tuning defaults.
use vstd::prelude::*;

verus! {

pub const CF_BLOCKS: &'static str = "blocks";
pub const CF_HEADERS: &'static str = "headers";
pub const CF_ATTESTED: &'static str = "attested";
pub const CF_CANONICAL: &'static str = "canonical";
pub const CF_CHECKPOINTS: &'static str = "checkpoints";
pub const CF_METADATA: &'static str = "metadata";

/// All column families opened by the store.
pub const ALL_COLUMN_FAMILIES: [&'static str; 6] = [
    CF_BLOCKS,
    CF_HEADERS,
    CF_ATTESTED,
    CF_CANONICAL,
    CF_CHECKPOINTS,
    CF_METADATA,
];

pub const META_TIP: &'static str = "tip";
pub const META_GENESIS_HASH: &'static str = "genesis_hash";
pub const META_MIN_HEIGHT: &'static str = "min_height";
pub const META_SCHEMA_VERSION: &'static str = "schema_version";
pub const META_ZSTD_DICT: &'static str = "zstd_dict";

pub const SCHEMA_VERSION: u64 = 1;

/// Default engine memtable budget per column family (64 MiB).
pub const DEFAULT_WRITE_BUFFER_SIZE: usize = 67_108_864;
/// Default engine block cache size (128 MiB).
pub const DEFAULT_BLOCK_CACHE_SIZE: usize = 134_217_728;
/// Default file descriptor budget.
pub const DEFAULT_MAX_OPEN_FILES: i32 = 1000;
/// Default bloom-filter bits per key.
pub const DEFAULT_BLOOM_BITS_PER_KEY: i32 = 10;
/// Default entries in the in-memory block cache.
pub const DEFAULT_BLOCK_CACHE_CAPACITY: usize = 1000;
/// Default entries in the in-memory header cache.
pub const DEFAULT_HEADER_CACHE_CAPACITY: usize = 2000;
/// Default zstd level for block bodies.
pub const ZSTD_COMPRESSION_LEVEL: i32 = 3;
/// Cap on a decompressed block payload (128 MiB).
pub const DEFAULT_MAX_DECOMPRESSED_BLOCK_BYTES: usize = 134_217_728;
/// Stored block count at which a compression dictionary is trained.
pub const DICT_TRAINING_THRESHOLD: u64 = 1000;
/// Upper bound on the trained dictionary's size (bytes).
pub const DICT_TARGET_SIZE: usize = 102_400;

} // verus!
