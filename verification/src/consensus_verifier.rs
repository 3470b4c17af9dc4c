//! The Altair sync committee verifier: checks the shape of the request and asks
//! the host for a BLS12-381 pairing check.
use vstd::prelude::*;

use crate::abi::{CURVE_BLS12_381, VERIFY_ERROR, VERIFY_VALID};
use crate::crypto::{CryptoProvider, DefaultCryptoProvider};
use crate::registry::VerifierMetadata;
use crate::types::VerificationResult;

verus! {

/// What this verifier says about itself.
pub fn metadata() -> (m: VerifierMetadata)
    ensures
        m.proof_type_id@ == "consensus:altair"@,
        m.version@ == "0.1.0"@,
        m.curve@ == "bls12-381"@,
        m.scheme@ == "sync-committee"@,
        !m.supports_recursion,
        !m.trusted_setup_required,
        m.max_proof_size == 1_048_576,
        m.description@ == "Altair sync committee light client proof verifier"@,
{
    VerifierMetadata {
        proof_type_id: String::from_str("consensus:altair"),
        version: String::from_str("0.1.0"),
        curve: String::from_str("bls12-381"),
        scheme: String::from_str("sync-committee"),
        supports_recursion: false,
        trusted_setup_required: false,
        max_proof_size: 1_048_576,
        description: String::from_str("Altair sync committee light client proof verifier"),
    }
}

/// The verdict on a consensus proof: an error for an empty proof or public
/// inputs shorter than 64 bytes; otherwise valid if the host's BLS12-381
/// pairing check of no pairs succeeds, else an error.
pub open spec fn spec_verify_consensus(proof: Seq<u8>, public_inputs: Seq<u8>) -> (u32, Seq<char>) {
    if proof.len() == 0 {
        (VERIFY_ERROR, "empty consensus proof"@)
    } else if public_inputs.len() < 64 {
        (VERIFY_ERROR, "public inputs: expected trusted_header_root (32 bytes) + update_slot (8 bytes)"@)
    } else if DefaultCryptoProvider.pairing_result(CURVE_BLS12_381, Seq::empty()) {
        (VERIFY_VALID, Seq::empty())
    } else {
        (VERIFY_ERROR, "BLS pairing verification not yet implemented"@)
    }
}

/// Checks a consensus proof.
pub fn verify_consensus(proof: &[u8], public_inputs: &[u8]) -> (r: VerificationResult)
    ensures
        r.spec_parts() == spec_verify_consensus(proof@, public_inputs@),
{
    if proof.len() == 0 {
        return VerificationResult::Error(String::from_str("empty consensus proof"));
    }
    if public_inputs.len() < 64 {
        return VerificationResult::Error(
            String::from_str(
                "public inputs: expected trusted_header_root (32 bytes) + update_slot (8 bytes)",
            ),
        );
    }
    let no_pairs: [u8; 0] = [];
    let result = DefaultCryptoProvider.pairing_check(CURVE_BLS12_381, no_pairs.as_slice());
    assert(no_pairs@ =~= Seq::<u8>::empty());
    if result {
        VerificationResult::Valid
    } else {
        VerificationResult::Error(String::from_str("BLS pairing verification not yet implemented"))
    }
}

/// Verifies a consensus proof; the verification key is not read.
pub fn verify(proof: Vec<u8>, public_inputs: Vec<u8>, _verification_key: Vec<u8>) -> (r:
    VerificationResult)
    ensures
        r.spec_parts() == spec_verify_consensus(proof@, public_inputs@),
{
    verify_consensus(proof.as_slice(), public_inputs.as_slice())
}

} // verus!
