//! Trusted boundary to `chia_sha2::Sha256`, the incremental SHA-256 hasher.
//!
//! The hasher is treated as a buffer of the bytes fed to it so far; finalizing yields
//! the SHA-256 digest of exactly those bytes. The digest itself is named, not defined.
use vstd::prelude::*;

verus! {

#[verifier::external_type_specification]
#[verifier::external_body]
pub struct ExSha256(chia_sha2::Sha256);

/// The bytes fed to the hasher since it was created, in order.
pub uninterp spec fn sha256_absorbed(h: chia_sha2::Sha256) -> Seq<u8>;

/// SHA-256 digest of a message.
pub uninterp spec fn sha256_digest(data: Seq<u8>) -> Seq<u8>;

/// `chia_sha2::Sha256::new`: a hasher that has absorbed nothing.
#[verifier::external_body]
pub(crate) fn sha256_new() -> (r: chia_sha2::Sha256)
    ensures
        sha256_absorbed(r) == Seq::<u8>::empty(),
{
    chia_sha2::Sha256::new()
}

/// `chia_sha2::Sha256::update`: absorb `data` after what came before.
#[verifier::external_body]
pub(crate) fn sha256_update(h: &mut chia_sha2::Sha256, data: &[u8])
    ensures
        sha256_absorbed(*final(h)) == sha256_absorbed(*old(h)) + data@,
{
    h.update(data)
}

/// `chia_sha2::Sha256::finalize`: the 32-byte digest of everything absorbed.
#[verifier::external_body]
pub(crate) fn sha256_finalize(h: chia_sha2::Sha256) -> (r: [u8; 32])
    ensures
        r@ == sha256_digest(sha256_absorbed(h)),
{
    h.finalize()
}

} // verus!
