//! Trusted boundary to the `zstd` crate: whole-buffer compression and decompression,
//! with and without a dictionary, and dictionary training.
//!
//! Each outcome is named as a function of the call's arguments (zstd is deterministic
//! for a given input, level and dictionary). The only facts stated beside the names
//! are the ones the crate exists for: a frame decompresses to the data it was made from.
use vstd::prelude::*;

verus! {

/// Outcome of `zstd::encode_all(data, level)`: `Some(frame)` on success.
pub uninterp spec fn zstd_encode_outcome(data: Seq<u8>, level: i32) -> Option<Seq<u8>>;

/// Outcome of `zstd::decode_all(data)`: `Some(bytes)` on success.
pub uninterp spec fn zstd_decode_outcome(data: Seq<u8>) -> Option<Seq<u8>>;

/// Outcome of compressing `data` with a `zstd::bulk::Compressor` made from `level` and `dict`.
pub uninterp spec fn zstd_dict_encode_outcome(data: Seq<u8>, level: i32, dict: Seq<u8>) -> Option<Seq<u8>>;

/// Whether `zstd::bulk::Decompressor::with_dictionary(dict)` succeeds.
pub uninterp spec fn zstd_dict_loadable(dict: Seq<u8>) -> bool;

/// Outcome of `decompress(data, capacity)` on a decompressor loaded with `dict`.
pub uninterp spec fn zstd_dict_decode_outcome(data: Seq<u8>, dict: Seq<u8>, capacity: usize) -> Option<Seq<u8>>;

/// Outcome of `zstd::dict::from_samples(samples, max_size)`.
pub uninterp spec fn zstd_train_outcome(samples: Seq<Seq<u8>>, max_size: usize) -> Option<Seq<u8>>;

/// `zstd::encode_all` over a byte slice. The contract ties the result to the named
/// outcome of `(data, level)`; the error text is the I/O error's message. It succeeds for
/// every input and level: zstd clamps the level into its supported range instead of
/// rejecting it, the empty dictionary always loads, and reading a slice into a `Vec`
/// cannot fail (running out of memory is outside every contract here, as for `Vec`).
#[verifier::external_body]
pub(crate) fn encode_all(data: &[u8], level: i32) -> (r: Result<Vec<u8>, String>)
    ensures
        match r {
            Ok(v) => zstd_encode_outcome(data@, level) == Some(v@),
            Err(_) => false,
        },
{
    zstd::encode_all(data, level).map_err(|e| e.to_string())
}

/// `zstd::decode_all` over a byte slice. Besides naming the outcome, the contract
/// states that a frame produced by `encode_all` from `x` decodes to `x`.
#[verifier::external_body]
pub(crate) fn decode_all(data: &[u8]) -> (r: Result<Vec<u8>, String>)
    ensures
        match (r, zstd_decode_outcome(data@)) {
            (Ok(v), Some(d)) => v@ == d,
            (Err(_), None) => true,
            _ => false,
        },
        match r {
            Ok(v) => forall|x: Seq<u8>, level: i32|
                #[trigger] zstd_encode_outcome(x, level) == Some(data@) ==> v@ == x,
            Err(_) => forall|x: Seq<u8>, level: i32|
                #[trigger] zstd_encode_outcome(x, level) != Some(data@),
        },
{
    zstd::decode_all(data).map_err(|e| e.to_string())
}

/// `zstd::bulk::Compressor::with_dictionary(level, dict)` followed by `compress(data)`:
/// the compressor exists only for this call. Either step's failure is an error.
#[verifier::external_body]
pub(crate) fn compress_with_dictionary(data: &[u8], level: i32, dict: &[u8]) -> (r: Result<Vec<u8>, String>)
    ensures
        match (r, zstd_dict_encode_outcome(data@, level, dict@)) {
            (Ok(v), Some(f)) => v@ == f,
            (Err(_), None) => true,
            _ => false,
        },
{
    zstd::bulk::Compressor::with_dictionary(level, dict)
        .and_then(|mut c| c.compress(data))
        .map_err(|e| e.to_string())
}

/// Result of dictionary decompression: the decompressor could not be made, the data
/// did not decode, or the decoded bytes.
pub enum DictDecode {
    SetupFailed(String),
    DecodeFailed(String),
    Decoded(Vec<u8>),
}

/// `zstd::bulk::Decompressor::with_dictionary(dict)` followed by
/// `decompress(data, capacity)`. Besides naming both outcomes, the contract states
/// that a frame compressed with the same dictionary from `x`, with `x` no longer than
/// `capacity`, decodes to `x`; and that a plain frame (made without a dictionary) from
/// `x` decodes to `x` under a dictionary zstd trained. A plain frame uses no dictionary
/// state but the initial repeat offsets, and trained dictionaries record the standard
/// ones; a hand-made dictionary with other repeat offsets is left out.
#[verifier::external_body]
pub(crate) fn decompress_with_dictionary(data: &[u8], dict: &[u8], capacity: usize) -> (r: DictDecode)
    ensures
        (r is SetupFailed) <==> !zstd_dict_loadable(dict@),
        zstd_dict_loadable(dict@) ==> match (r, zstd_dict_decode_outcome(data@, dict@, capacity)) {
            (DictDecode::Decoded(v), Some(d)) => v@ == d,
            (DictDecode::DecodeFailed(_), None) => true,
            _ => false,
        },
        match r {
            DictDecode::Decoded(v) => forall|x: Seq<u8>, level: i32|
                #[trigger] zstd_dict_encode_outcome(x, level, dict@) == Some(data@) && x.len()
                    <= capacity ==> v@ == x,
            _ => forall|x: Seq<u8>, level: i32|
                #[trigger] zstd_dict_encode_outcome(x, level, dict@) == Some(data@) && x.len()
                    <= capacity ==> !zstd_dict_loadable(dict@),
        },
        match r {
            DictDecode::Decoded(v) => (exists|s: Seq<Seq<u8>>, m: usize|
                #[trigger] zstd_train_outcome(s, m) == Some(dict@)) ==> forall|x: Seq<u8>, level: i32|
                #[trigger] zstd_encode_outcome(x, level) == Some(data@) && x.len() <= capacity ==> v@ == x,
            _ => (exists|s: Seq<Seq<u8>>, m: usize|
                #[trigger] zstd_train_outcome(s, m) == Some(dict@)) ==> forall|x: Seq<u8>, level: i32|
                #[trigger] zstd_encode_outcome(x, level) == Some(data@) ==> x.len() > capacity,
        },
{
    match zstd::bulk::Decompressor::with_dictionary(dict) {
        Err(e) => DictDecode::SetupFailed(e.to_string()),
        Ok(mut d) => match d.decompress(data, capacity) {
            Ok(v) => DictDecode::Decoded(v),
            Err(e) => DictDecode::DecodeFailed(e.to_string()),
        },
    }
}

/// Views of the training samples.
pub open spec fn samples_view(samples: Seq<Vec<u8>>) -> Seq<Seq<u8>> {
    Seq::new(samples.len(), |i: int| samples[i]@)
}

/// `zstd::dict::from_samples(samples, max_size)`.
#[verifier::external_body]
pub(crate) fn train_from_samples(samples: &Vec<Vec<u8>>, max_size: usize) -> (r: Result<Vec<u8>, String>)
    ensures
        match (r, zstd_train_outcome(samples_view(samples@), max_size)) {
            (Ok(v), Some(d)) => v@ == d,
            (Err(_), None) => true,
            _ => false,
        },
{
    zstd::dict::from_samples(samples.as_slice(), max_size).map_err(|e| e.to_string())
}

} // verus!
