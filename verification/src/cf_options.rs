//! Per-column-family engine tuning, and the compaction-time pruning rule for headers.
use vstd::prelude::*;

use crate::block::{header_from_bincode, header_summary, summarize_header};
use crate::store::{BlockStore, ColumnFamilyId};

verus! {

/// Minimum value size routed to blob files for the block column family.
pub const BLOCKS_BLOB_MIN_SIZE: u64 = 512;
/// Target file size for the checkpoint column family (256 MiB).
pub const CHECKPOINTS_TARGET_FILE_SIZE_BASE: u64 = 268_435_456;
/// Name of the header pruning compaction filter.
pub const HEADER_PRUNE_FILTER_NAME: &'static str = "prn003_header_height_filter";

/// Compaction strategy of a column family.
#[derive(Debug, Clone, Copy, PartialEq, Eq)]
pub enum CompactionStyle {
    Universal,
    Level,
}

/// Tuning of one column family.
#[derive(Debug, Clone, Copy, PartialEq, Eq)]
pub struct CfTuning {
    pub compaction: CompactionStyle,
    /// Full bloom filter with `DEFAULT_BLOOM_BITS_PER_KEY` bits per key.
    pub bloom_filter: bool,
    /// Block compression switched off.
    pub compression_off: bool,
    /// Large values in zstd-compressed blob files (minimum `BLOCKS_BLOB_MIN_SIZE`).
    pub blob_files: bool,
    /// SST target file size, when set.
    pub target_file_size_base: Option<u64>,
    /// Header pruning compaction filter registered.
    pub prune_filter: bool,
}

/// Tuning per family: blocks use universal compaction (blob files when enabled, no bloom);
/// headers level compaction, bloom, no compression, and the pruning filter when a
/// pruning threshold is shared; attested level compaction and bloom; canonical level
/// compaction, no bloom, no compression; checkpoints level compaction with a 256 MiB
/// target file size; metadata level compaction.
pub fn cf_tuning(cf: ColumnFamilyId, enable_blob_db: bool, with_prune_filter: bool) -> (r: CfTuning)
    ensures
        r == cf_tuning_spec(cf, enable_blob_db, with_prune_filter),
{
    match cf {
        ColumnFamilyId::Blocks => CfTuning {
            compaction: CompactionStyle::Universal,
            bloom_filter: false,
            compression_off: false,
            blob_files: enable_blob_db,
            target_file_size_base: None,
            prune_filter: false,
        },
        ColumnFamilyId::Headers => CfTuning {
            compaction: CompactionStyle::Level,
            bloom_filter: true,
            compression_off: true,
            blob_files: false,
            target_file_size_base: None,
            prune_filter: with_prune_filter,
        },
        ColumnFamilyId::Attested => CfTuning {
            compaction: CompactionStyle::Level,
            bloom_filter: true,
            compression_off: false,
            blob_files: false,
            target_file_size_base: None,
            prune_filter: false,
        },
        ColumnFamilyId::Canonical => CfTuning {
            compaction: CompactionStyle::Level,
            bloom_filter: false,
            compression_off: true,
            blob_files: false,
            target_file_size_base: None,
            prune_filter: false,
        },
        ColumnFamilyId::Checkpoints => CfTuning {
            compaction: CompactionStyle::Level,
            bloom_filter: false,
            compression_off: false,
            blob_files: false,
            target_file_size_base: Some(CHECKPOINTS_TARGET_FILE_SIZE_BASE),
            prune_filter: false,
        },
        ColumnFamilyId::Metadata => CfTuning {
            compaction: CompactionStyle::Level,
            bloom_filter: false,
            compression_off: false,
            blob_files: false,
            target_file_size_base: None,
            prune_filter: false,
        },
    }
}

pub open spec fn cf_tuning_spec(cf: ColumnFamilyId, enable_blob_db: bool, with_prune_filter: bool) -> CfTuning {
    CfTuning {
        compaction: if cf is Blocks { CompactionStyle::Universal } else { CompactionStyle::Level },
        bloom_filter: cf is Headers || cf is Attested,
        compression_off: cf is Headers || cf is Canonical,
        blob_files: cf is Blocks && enable_blob_db,
        target_file_size_base: if cf is Checkpoints { Some(CHECKPOINTS_TARGET_FILE_SIZE_BASE) } else { None },
        prune_filter: cf is Headers && with_prune_filter,
    }
}

/// The column families in the order they are opened.
pub fn all_column_families() -> (r: [ColumnFamilyId; 6])
    ensures
        r@ == seq![
            ColumnFamilyId::Blocks,
            ColumnFamilyId::Headers,
            ColumnFamilyId::Attested,
            ColumnFamilyId::Canonical,
            ColumnFamilyId::Checkpoints,
            ColumnFamilyId::Metadata,
        ],
{
    let r = [
        ColumnFamilyId::Blocks,
        ColumnFamilyId::Headers,
        ColumnFamilyId::Attested,
        ColumnFamilyId::Canonical,
        ColumnFamilyId::Checkpoints,
        ColumnFamilyId::Metadata,
    ];
    assert(r@ =~= seq![
        ColumnFamilyId::Blocks,
        ColumnFamilyId::Headers,
        ColumnFamilyId::Attested,
        ColumnFamilyId::Canonical,
        ColumnFamilyId::Checkpoints,
        ColumnFamilyId::Metadata,
    ]);
    r
}

/// Stable name of a column family.
pub fn cf_name(cf: ColumnFamilyId) -> (r: &'static str)
    ensures
        r == (match cf {
            ColumnFamilyId::Blocks => crate::constants::CF_BLOCKS,
            ColumnFamilyId::Headers => crate::constants::CF_HEADERS,
            ColumnFamilyId::Attested => crate::constants::CF_ATTESTED,
            ColumnFamilyId::Canonical => crate::constants::CF_CANONICAL,
            ColumnFamilyId::Checkpoints => crate::constants::CF_CHECKPOINTS,
            ColumnFamilyId::Metadata => crate::constants::CF_METADATA,
        }),
{
    match cf {
        ColumnFamilyId::Blocks => crate::constants::CF_BLOCKS,
        ColumnFamilyId::Headers => crate::constants::CF_HEADERS,
        ColumnFamilyId::Attested => crate::constants::CF_ATTESTED,
        ColumnFamilyId::Canonical => crate::constants::CF_CANONICAL,
        ColumnFamilyId::Checkpoints => crate::constants::CF_CHECKPOINTS,
        ColumnFamilyId::Metadata => crate::constants::CF_METADATA,
    }
}

/// What compaction does with a header row.
#[derive(Debug, Clone, Copy, PartialEq, Eq)]
pub enum CompactionDecision {
    Keep,
    Remove,
}

/// Header pruning during compaction of a header row `value`: with a floor of 0 nothing
/// is pruned (the row is not decoded); a row that does not decode as a header is kept;
/// a header below the floor is removed.
pub fn header_compaction_decision(min_height: u64, value: &[u8]) -> (r: CompactionDecision)
    ensures
        r == (if min_height == 0 {
            CompactionDecision::Keep
        } else {
            match header_from_bincode(value@) {
                Some(h) => if header_summary(h).height < min_height {
                    CompactionDecision::Remove
                } else {
                    CompactionDecision::Keep
                },
                None => CompactionDecision::Keep,
            }
        }),
{
    if min_height == 0 {
        return CompactionDecision::Keep;
    }
    match BlockStore::deserialize_header(value) {
        Ok(header) => if summarize_header(&header).height < min_height {
            CompactionDecision::Remove
        } else {
            CompactionDecision::Keep
        },
        Err(_) => CompactionDecision::Keep,
    }
}

} // verus!
