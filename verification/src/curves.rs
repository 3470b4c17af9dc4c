//! Pairing-friendly curve operations, computed by the arkworks BN254 crates and by `blst`.
use vstd::prelude::*;
use ark_ec::pairing::Pairing;
use ark_ff::{PrimeField, Zero};

use crate::rlp::byte_views;

verus! {

/// Whether 64 bytes (x then y, each 32 bytes big-endian, reduced modulo the
/// field prime) name a point of the BN254 G1 group.
pub uninterp spec fn bn254_g1_is_valid(bytes: Seq<u8>) -> bool;

/// Whether 128 bytes (x.c0, x.c1, y.c0, y.c1, each 32 bytes big-endian,
/// reduced modulo the field prime) name a point of the BN254 G2 group.
pub uninterp spec fn bn254_g2_is_valid(bytes: Seq<u8>) -> bool;

/// Whether the product of the BN254 pairings of the G1 and G2 points encoded
/// at equal positions is the identity of the target group.
pub uninterp spec fn bn254_pairing_product_is_one(g1: Seq<Seq<u8>>, g2: Seq<Seq<u8>>) -> bool;

/// Whether `signature` (a compressed G2 point) is a valid BLS signature of
/// `message` under `public_key` (a compressed G1 point) with the domain
/// separation tag `dst`.
pub uninterp spec fn bls_signature_is_valid(
    message: Seq<u8>,
    signature: Seq<u8>,
    public_key: Seq<u8>,
    dst: Seq<u8>,
) -> bool;

/// Reads a BN254 G1 point with `ark_ff::PrimeField::from_be_bytes_mod_order`
/// and `Affine::new_unchecked`, and asks `is_on_curve` and
/// `is_in_correct_subgroup_assuming_on_curve`. Trusted: the answer is the name
/// `bn254_g1_is_valid` of the bytes; the group law is not stated.
#[verifier::external_body]
pub(crate) fn bn254_g1_valid(bytes: &[u8]) -> (r: bool)
    requires
        bytes@.len() == 64,
    ensures
        r == bn254_g1_is_valid(bytes@),
{
    let x = ark_bn254::Fq::from_be_bytes_mod_order(&bytes[0..32]);
    let y = ark_bn254::Fq::from_be_bytes_mod_order(&bytes[32..64]);
    let p = ark_bn254::G1Affine::new_unchecked(x, y);
    p.is_on_curve() && p.is_in_correct_subgroup_assuming_on_curve()
}

/// Reads a BN254 G2 point as `bn254_g1_valid` does, with `Fq2::new` for the
/// coordinates. Trusted: the answer is the name `bn254_g2_is_valid` of the bytes.
#[verifier::external_body]
pub(crate) fn bn254_g2_valid(bytes: &[u8]) -> (r: bool)
    requires
        bytes@.len() == 128,
    ensures
        r == bn254_g2_is_valid(bytes@),
{
    let x = ark_bn254::Fq2::new(
        ark_bn254::Fq::from_be_bytes_mod_order(&bytes[0..32]),
        ark_bn254::Fq::from_be_bytes_mod_order(&bytes[32..64]),
    );
    let y = ark_bn254::Fq2::new(
        ark_bn254::Fq::from_be_bytes_mod_order(&bytes[64..96]),
        ark_bn254::Fq::from_be_bytes_mod_order(&bytes[96..128]),
    );
    let p = ark_bn254::G2Affine::new_unchecked(x, y);
    p.is_on_curve() && p.is_in_correct_subgroup_assuming_on_curve()
}

/// `ark_ec::pairing::Pairing::multi_pairing` on `Bn254` over the points the
/// byte strings encode (read as in `bn254_g1_valid` and `bn254_g2_valid`),
/// asking whether the result is the identity (`is_zero` in arkworks' additive
/// notation). The points must be valid: on points off the curve the Miller
/// loop can meet a zero line, the final exponentiation then finds no inverse,
/// and `multi_pairing` panics. Trusted: the answer is the name
/// `bn254_pairing_product_is_one` of the encodings.
#[verifier::external_body]
pub(crate) fn bn254_pairing_is_one(g1: &Vec<Vec<u8>>, g2: &Vec<Vec<u8>>) -> (r: bool)
    requires
        g1@.len() == g2@.len(),
        forall|i: int| 0 <= i < g1@.len() ==> #[trigger] g1@[i]@.len() == 64,
        forall|i: int| 0 <= i < g2@.len() ==> #[trigger] g2@[i]@.len() == 128,
        forall|i: int| 0 <= i < g1@.len() ==> bn254_g1_is_valid(#[trigger] g1@[i]@),
        forall|i: int| 0 <= i < g2@.len() ==> bn254_g2_is_valid(#[trigger] g2@[i]@),
    ensures
        r == bn254_pairing_product_is_one(byte_views(g1@), byte_views(g2@)),
{
    let fq = |b: &[u8]| ark_bn254::Fq::from_be_bytes_mod_order(b);
    let a: Vec<ark_bn254::G1Affine> = g1.iter().map(|b| ark_bn254::G1Affine::new_unchecked(
        fq(&b[0..32]), fq(&b[32..64]))).collect();
    let b: Vec<ark_bn254::G2Affine> = g2.iter().map(|b| ark_bn254::G2Affine::new_unchecked(
        ark_bn254::Fq2::new(fq(&b[0..32]), fq(&b[32..64])),
        ark_bn254::Fq2::new(fq(&b[64..96]), fq(&b[96..128])))).collect();
    ark_bn254::Bn254::multi_pairing(a, b).is_zero()
}

/// `blst::min_pk`: `PublicKey::from_bytes`, `Signature::from_bytes`, then
/// `Signature::verify` with group checks on, no augmentation, and `dst`.
/// Trusted: the answer is the name `bls_signature_is_valid` of the arguments;
/// bytes that do not deserialize give `false`.
#[verifier::external_body]
pub(crate) fn bls_verify(message: &[u8], signature: &[u8], public_key: &[u8], dst: &[u8]) -> (r: bool)
    ensures
        r == bls_signature_is_valid(message@, signature@, public_key@, dst@),
{
    match (blst::min_pk::PublicKey::from_bytes(public_key), blst::min_pk::Signature::from_bytes(signature)) {
        (Ok(pk), Ok(sig)) => sig.verify(true, message, dst, &[], &pk, true) == blst::BLST_ERROR::BLST_SUCCESS,
        _ => false,
    }
}

} // verus!
