//! A placeholder verifier for trying out the runtime: it never reaches a verdict.
use vstd::prelude::*;

use crate::abi::{copy_truncated, overwrite_front, VERIFY_ERROR};
use vstd::utf8::encode_utf8;

verus! {

/// The self-description this verifier reports.
pub open spec fn spec_metadata_json() -> Seq<char> {
    "{\"proof_type_id\":\"hello:dummy\",\"version\":\"0.1.0\",\"curve\":\"\",\"scheme\":\"dummy\",\"supports_recursion\":false,\"trusted_setup_required\":false,\"max_proof_size\":0,\"description\":\"Hello-world verifier for testing the Runt runtime\"}"@
}

/// The reason this verifier gives.
pub open spec fn spec_message() -> Seq<char> {
    "not implemented: placeholder verifier"@
}

/// Writes this verifier's self-description, as JSON, to the front of `buf`,
/// as much of it as fits, and returns how many bytes were written.
pub fn metadata(buf: &mut [u8]) -> (n: u32)
    ensures
        n as int == if encode_utf8(spec_metadata_json()).len() <= old(buf)@.len() {
            encode_utf8(spec_metadata_json()).len() as int
        } else {
            old(buf)@.len() as int
        },
        final(buf)@ == overwrite_front(old(buf)@, encode_utf8(spec_metadata_json())),
{
    let json = "{\"proof_type_id\":\"hello:dummy\",\"version\":\"0.1.0\",\"curve\":\"\",\"scheme\":\"dummy\",\"supports_recursion\":false,\"trusted_setup_required\":false,\"max_proof_size\":0,\"description\":\"Hello-world verifier for testing the Runt runtime\"}";
    let bytes = json.as_bytes();
    let n = copy_truncated(bytes, buf);
    proof {
        reveal_strlit("{\"proof_type_id\":\"hello:dummy\",\"version\":\"0.1.0\",\"curve\":\"\",\"scheme\":\"dummy\",\"supports_recursion\":false,\"trusted_setup_required\":false,\"max_proof_size\":0,\"description\":\"Hello-world verifier for testing the Runt runtime\"}");
        assert(vstd::string::is_ascii(json));
        vstd::string::is_ascii_spec_bytes(json);
        assert(bytes@.len() < 1000);
    }
    n as u32
}

/// Returns the error status whatever the proof and inputs, with as much of
/// its message as fits written to the front of `error_buf`.
pub fn verify(_proof: &[u8], _inputs: &[u8], error_buf: &mut [u8]) -> (code: u32)
    ensures
        code == VERIFY_ERROR,
        final(error_buf)@ == overwrite_front(old(error_buf)@, encode_utf8(spec_message())),
{
    let msg = "not implemented: placeholder verifier";
    let _n = copy_truncated(msg.as_bytes(), error_buf);
    VERIFY_ERROR
}

} // verus!
