//! Persistent block storage for the DIG L2 network: the verified core.
//!
//! The on-disk engine (RocksDB, memory maps, async plumbing) lives outside this
//! crate; everything here is the logic those layers rely on: key encodings,
//! the chain-tip record, the dense canonical index, block payload compression,
//! snapshot framing, write-batch planning and the small caches.
use vstd::prelude::*;

pub mod block;
pub mod bytes32;
pub mod cache;
pub mod canonical;
pub mod cf_options;
pub mod compression;
pub mod config;
pub mod constants;
pub mod encoding;
pub mod epoch;
pub mod error;
pub mod pipeline;
pub mod range;
pub mod sha;
pub mod snapshot;
pub mod store;
pub mod text;
pub mod types;
pub mod wire;
pub mod zstd_ops;

pub use bytes32::Bytes32;
pub use encoding::{decode_epoch_key, decode_height_key, epoch_key, hash_key, height_key, metadata_key};
pub use epoch::{epoch_height_range, DigEpochStub, BLOCKS_PER_EPOCH};
pub use error::{
    BlockStoreError, ERR_ASYNC_JOIN_PREFIX, ERR_INIT_GENESIS_ALREADY_INITIALIZED,
    ERR_INIT_GENESIS_READ_ONLY, ERR_MUTATION_READ_ONLY, ERR_OPEN_READONLY_PATH_MISSING_PREFIX,
    ERR_UPDATE_STATUS_RECORD_NOT_CACHED_PREFIX,
};
pub use types::{
    BlockRecord, BlockStatus, ChainTip, HeaderSummary, ReorgResult, StorageStats, StoredCheckpoint,
};
pub use config::BlockStoreConfig;
pub use snapshot::{SnapshotManifest, SNAPSHOT_VERSION};
pub use wire::{block_from_wire_bytes, block_to_wire_bytes};
