//! Canonical height-to-hash index: the dense array and its synchronisation rules.
pub mod bin;
pub mod dense;

pub use bin::{canonical_sync_action, CanonicalBin, CanonicalSyncAction};
pub use dense::{
    canonical_bin_path, dense_bytes_from_rows, read_slice_nonzero, CanonicalDenseFile,
    CANONICAL_BIN_FILE,
};
