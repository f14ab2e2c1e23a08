//! Error surface of the block store.
use vstd::prelude::*;

use crate::bytes32::Bytes32;

verus! {

/// Message prefix for a read-only store rejecting a mutation.
pub const ERR_MUTATION_READ_ONLY: &'static str = "block store is read-only: mutation rejected";
/// Message for `init_genesis` on a read-only store.
pub const ERR_INIT_GENESIS_READ_ONLY: &'static str =
    "init_genesis: block store is read-only: mutation rejected";
/// Message for `init_genesis` on a store that already holds a tip or genesis hash.
pub const ERR_INIT_GENESIS_ALREADY_INITIALIZED: &'static str =
    "init_genesis: block store already initialized";
/// Prefix of the message when a read-only open finds no database directory.
pub const ERR_OPEN_READONLY_PATH_MISSING_PREFIX: &'static str =
    "open_readonly: database path does not exist: ";
/// Prefix of the message when a status update finds no cached record.
pub const ERR_UPDATE_STATUS_RECORD_NOT_CACHED_PREFIX: &'static str =
    "update_status: block record not cached: ";
/// Prefix of the message when a blocking task fails to join.
pub const ERR_ASYNC_JOIN_PREFIX: &'static str = "async blocking task failed: ";

/// Top-level error type for block storage operations.
#[derive(Debug, Clone, PartialEq, Eq)]
pub enum BlockStoreError {
    /// Filesystem error creating or opening paths.
    Io(String),
    /// Storage engine error.
    RocksDb(String),
    /// Database directory does not exist.
    PathDoesNotExist(String),
    /// Mutating API called on a read-only store.
    ReadOnly,
    /// Genesis or tip already present.
    AlreadyInitialized,
    /// Encode/decode failure, or bytes that cannot be used.
    Serialization(String),
    /// Malformed stored bytes (tip, hash payload, ...).
    InvalidData(String),
    /// Zstd failure.
    Zstd(String),
    /// Compression failure on block payloads.
    Compression(String),
    /// Hash not present in the block column family.
    BlockNotFound(Bytes32),
    /// No checkpoint stored for the epoch.
    CheckpointNotFound(u64),
    /// Hash not present in the store (chain operation).
    BlockNotInStore(Bytes32),
    /// Rollback target below the pruning floor.
    RollbackBelowMin { target: u64, min: u64 },
    /// Rollback target above the current tip.
    RollbackAboveTip { target: u64, tip: u64 },
    /// No chain tip set.
    NoTip,
    /// On-disk schema version differs from this build's.
    SchemaMismatch { expected: u32, found: u32 },
    /// Store has no genesis.
    NotInitialized,
    /// Reorg requested with an empty new chain.
    EmptyReorgChain,
    /// The asynchronous write channel is closed.
    PipelineClosed,
}

impl BlockStoreError {
    /// Compression error carrying the I/O error's message.
    pub fn compression_from_io(message: String) -> (r: BlockStoreError)
        ensures
            r == BlockStoreError::Compression(message),
    {
        BlockStoreError::Compression(message)
    }
}

} // verus!
