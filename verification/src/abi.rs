//! Numeric codes shared between the host and its verifiers.
use vstd::prelude::*;

verus! {

/// Status code of a verifier that accepted the proof.
pub const VERIFY_VALID: u32 = 0;

/// Status code of a verifier that rejected the proof.
pub const VERIFY_INVALID: u32 = 1;

/// Status code of a verifier that could not reach a verdict.
pub const VERIFY_ERROR: u32 = 2;

/// Hash algorithm code: Keccak-256 (the Ethereum flavour, not SHA3-256).
pub const HASH_KECCAK256: u32 = 1;

/// Hash algorithm code: SHA-256.
pub const HASH_SHA256: u32 = 2;

/// Curve code: BN254 (alt_bn128).
pub const CURVE_BN254: u32 = 1;

/// Curve code: BLS12-381.
pub const CURVE_BLS12_381: u32 = 2;

/// Signature scheme code: BLS over BLS12-381, public keys in G1.
pub const SIG_BLS: u32 = 1;

} // verus!

verus! {

/// `buf` with as much of `src` as fits written over its front.
pub open spec fn overwrite_front(buf: Seq<u8>, src: Seq<u8>) -> Seq<u8> {
    let n = if src.len() <= buf.len() { src.len() } else { buf.len() };
    src.take(n as int) + buf.skip(n as int)
}

/// Copies as much of `src` as fits to the front of `buf`, leaving the rest of
/// `buf` as it was, and returns how many bytes were copied.
pub fn copy_truncated(src: &[u8], buf: &mut [u8]) -> (n: usize)
    ensures
        n == if src@.len() <= old(buf)@.len() { src@.len() } else { old(buf)@.len() },
        final(buf)@ == overwrite_front(old(buf)@, src@),
{
    let n = if src.len() <= buf.len() { src.len() } else { buf.len() };
    let mut i: usize = 0;
    while i < n
        invariant
            i <= n,
            n <= src@.len(),
            n <= buf@.len(),
            buf@.len() == old(buf)@.len(),
            forall|j: int| 0 <= j < i ==> buf@[j] == src@[j],
            forall|j: int| n <= j < buf@.len() ==> buf@[j] == old(buf)@[j],
        decreases n - i,
    {
        buf[i] = src[i];
        i = i + 1;
    }
    assert(buf@ =~= src@.take(n as int) + old(buf)@.skip(n as int));
    n
}

} // verus!
