//! The hash functions the library relies on, computed by the `sha3` and `sha2` crates.
use vstd::prelude::*;
use sha2::Digest;

verus! {

/// The Keccak-256 digest of `data`, as `sha3::Keccak256` computes it.
pub uninterp spec fn keccak256_digest(data: Seq<u8>) -> Seq<u8>;

/// The SHA-256 digest of `data`, as `sha2::Sha256` computes it.
pub uninterp spec fn sha256_digest(data: Seq<u8>) -> Seq<u8>;

/// Keccak-256 through `sha3::Keccak256` (`Digest::digest`). Trusted: the 32
/// bytes returned are the name `keccak256_digest` applied to the input; what
/// that digest is, is not stated.
#[verifier::external_body]
pub(crate) fn keccak256(data: &[u8]) -> (r: [u8; 32])
    ensures
        r@ == keccak256_digest(data@),
{
    let mut out = [0u8; 32];
    out.copy_from_slice(sha3::Keccak256::digest(data).as_slice());
    out
}

/// SHA-256 through `sha2::Sha256` (`Digest::digest`). Trusted: the 32 bytes
/// returned are the name `sha256_digest` applied to the input; what that digest
/// is, is not stated.
#[verifier::external_body]
pub(crate) fn sha256(data: &[u8]) -> (r: [u8; 32])
    ensures
        r@ == sha256_digest(data@),
{
    let mut out = [0u8; 32];
    out.copy_from_slice(sha2::Sha256::digest(data).as_slice());
    out
}

} // verus!
