//! The Groth16 verifier over BN254: hands the proof's point pairs to the host's
//! pairing check.
use vstd::prelude::*;

use crate::abi::{copy_truncated, overwrite_front, VERIFY_INVALID, VERIFY_VALID};
use crate::crypto::{bn254_pairing_check, spec_bn254_pairing_check};
use crate::text::{concat_str, push_decimal, spec_decimal};
use vstd::utf8::encode_utf8;

verus! {

/// The self-description this verifier reports.
pub open spec fn spec_metadata_json() -> Seq<char> {
    "{\"proof_type_id\":\"groth16:bn254\",\"version\":\"0.1.0\",\"curve\":\"bn254\",\"scheme\":\"groth16\",\"supports_recursion\":false,\"trusted_setup_required\":true,\"max_proof_size\":8192,\"description\":\"BN254 Groth16 zero-knowledge proof verifier\"}"@
}

/// The outcome of checking a Groth16 proof: at least 128 bytes, whose BN254
/// pairing check succeeds.
pub open spec fn spec_verify_groth16(proof: Seq<u8>) -> Result<(), Seq<char>> {
    if proof.len() < 128 {
        Err("Groth16 proof too short: "@ + spec_decimal(proof.len()) + " bytes (min 128)"@)
    } else if spec_bn254_pairing_check(proof) {
        Ok(())
    } else {
        Err("Groth16 pairing check failed"@)
    }
}

/// Checks a Groth16 proof; the public inputs are not read.
pub fn verify_groth16(proof: &[u8], _public_inputs: &[u8]) -> (r: Result<(), String>)
    ensures
        match spec_verify_groth16(proof@) {
            Ok(_) => r is Ok,
            Err(m) => r matches Err(e) && e@ == m,
        },
{
    if proof.len() < 128 {
        let mut m = String::from_str("Groth16 proof too short: ");
        push_decimal(&mut m, proof.len() as u64);
        return Err(concat_str(m, " bytes (min 128)"));
    }
    if bn254_pairing_check(proof) {
        Ok(())
    } else {
        Err(String::from_str("Groth16 pairing check failed"))
    }
}

/// Writes this verifier's self-description, as JSON, to the front of `buf`,
/// as much of it as fits, and returns how many bytes were written.
pub fn metadata(buf: &mut [u8]) -> (n: u32)
    ensures
        n as int == if encode_utf8(spec_metadata_json()).len() <= old(buf)@.len() {
            encode_utf8(spec_metadata_json()).len() as int
        } else {
            old(buf)@.len() as int
        },
        final(buf)@ == overwrite_front(old(buf)@, encode_utf8(spec_metadata_json())),
{
    let json = "{\"proof_type_id\":\"groth16:bn254\",\"version\":\"0.1.0\",\"curve\":\"bn254\",\"scheme\":\"groth16\",\"supports_recursion\":false,\"trusted_setup_required\":true,\"max_proof_size\":8192,\"description\":\"BN254 Groth16 zero-knowledge proof verifier\"}";
    let bytes = json.as_bytes();
    let n = copy_truncated(bytes, buf);
    proof {
        reveal_strlit("{\"proof_type_id\":\"groth16:bn254\",\"version\":\"0.1.0\",\"curve\":\"bn254\",\"scheme\":\"groth16\",\"supports_recursion\":false,\"trusted_setup_required\":true,\"max_proof_size\":8192,\"description\":\"BN254 Groth16 zero-knowledge proof verifier\"}");
        assert(vstd::string::is_ascii(json));
        vstd::string::is_ascii_spec_bytes(json);
        assert(bytes@.len() < 1000);
    }
    n as u32
}

/// Verifies a Groth16 proof: returns the valid status, or the invalid status
/// with as much of the reason as fits written to the front of `error_buf`.
pub fn verify(proof: &[u8], inputs: &[u8], error_buf: &mut [u8]) -> (code: u32)
    ensures
        match spec_verify_groth16(proof@) {
            Ok(_) => code == VERIFY_VALID && final(error_buf)@ == old(error_buf)@,
            Err(m) => code == VERIFY_INVALID && final(error_buf)@ == overwrite_front(
                old(error_buf)@,
                encode_utf8(m),
            ),
        },
{
    match verify_groth16(proof, inputs) {
        Ok(_) => VERIFY_VALID,
        Err(e) => {
            let msg = e.as_str().as_bytes();
            let _n = copy_truncated(msg, error_buf);
            VERIFY_INVALID
        },
    }
}

} // verus!
