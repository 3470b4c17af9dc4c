//! The EIP-1186 state proof verifier: proves that a key is present in the
//! Merkle Patricia Trie with a given root.
use vstd::prelude::*;

use crate::abi::{copy_truncated, overwrite_front, VERIFY_INVALID, VERIFY_VALID};
use crate::rlp::{byte_views, decode_rlp_list, spec_list};
use crate::trie::Dialect;
use crate::trie::{
    bytes_to_nibbles, hash_nodes, hashed_nodes, lemma_nibbles_bounded, spec_nibbles,
    spec_walk_result, to_hash, walk_trie,
};
use vstd::utf8::encode_utf8;

verus! {

/// The self-description this verifier reports.
pub open spec fn spec_metadata_json() -> Seq<char> {
    "{\"proof_type_id\":\"state:eip1186\",\"version\":\"0.1.0\",\"curve\":\"\",\"scheme\":\"mpt\",\"supports_recursion\":false,\"trusted_setup_required\":false,\"max_proof_size\":10485760,\"description\":\"EIP-1186 Merkle Patricia Trie state proof verifier\"}"@
}

/// The outcome of checking `proof` against `inputs`: the first 32 bytes of the
/// inputs are the state root, the rest is the key; the proof is an RLP list of
/// trie nodes.
pub open spec fn spec_verify_state_proof(proof: Seq<u8>, inputs: Seq<u8>) -> Result<(), Seq<char>> {
    if inputs.len() < 32 {
        Err("public inputs too short: need state_root (32 bytes) + key"@)
    } else {
        match spec_list(proof) {
            None => Err("failed to decode proof RLP"@),
            Some(nodes) => if nodes.len() == 0 {
                Err("empty proof: no trie nodes"@)
            } else {
                match spec_walk_result(
                    hashed_nodes(nodes),
                    inputs.take(32),
                    spec_nibbles(inputs.skip(32)),
                    Dialect::Account,
                ) {
                    Ok(_) => Ok(()),
                    Err(m) => Err(m),
                }
            },
        }
    }
}

/// Checks a state proof; on rejection, the message says why.
pub fn verify_state_proof(proof: &[u8], inputs: &[u8]) -> (r: Result<(), String>)
    ensures
        match spec_verify_state_proof(proof@, inputs@) {
            Ok(_) => r is Ok,
            Err(m) => r matches Err(e) && e@ == m,
        },
{
    if inputs.len() < 32 {
        return Err(String::from_str("public inputs too short: need state_root (32 bytes) + key"));
    }
    let root_bytes = &inputs[0..32];
    let state_root = to_hash(root_bytes);
    let key = &inputs[32..inputs.len()];
    assert(key@ =~= inputs@.skip(32));
    assert(state_root@ =~= inputs@.take(32));
    let nodes = match decode_rlp_list(proof) {
        Some(n) => n,
        None => return Err(String::from_str("failed to decode proof RLP")),
    };
    if nodes.len() == 0 {
        return Err(String::from_str("empty proof: no trie nodes"));
    }
    let node_map = hash_nodes(&nodes);
    let nibbles = bytes_to_nibbles(key);
    proof {
        lemma_nibbles_bounded(key@);
    }
    match walk_trie(&node_map, state_root, nibbles.as_slice(), Dialect::Account) {
        Ok(_value) => Ok(()),
        Err(e) => Err(e),
    }
}

/// Writes this verifier's self-description, as JSON, to the front of `buf`,
/// as much of it as fits, and returns how many bytes were written.
pub fn metadata(buf: &mut [u8]) -> (n: u32)
    ensures
        n as int == if encode_utf8(spec_metadata_json()).len() <= old(buf)@.len() {
            encode_utf8(spec_metadata_json()).len() as int
        } else {
            old(buf)@.len() as int
        },
        final(buf)@ == overwrite_front(old(buf)@, encode_utf8(spec_metadata_json())),
{
    let json = "{\"proof_type_id\":\"state:eip1186\",\"version\":\"0.1.0\",\"curve\":\"\",\"scheme\":\"mpt\",\"supports_recursion\":false,\"trusted_setup_required\":false,\"max_proof_size\":10485760,\"description\":\"EIP-1186 Merkle Patricia Trie state proof verifier\"}";
    let bytes = json.as_bytes();
    let n = copy_truncated(bytes, buf);
    proof {
        reveal_strlit("{\"proof_type_id\":\"state:eip1186\",\"version\":\"0.1.0\",\"curve\":\"\",\"scheme\":\"mpt\",\"supports_recursion\":false,\"trusted_setup_required\":false,\"max_proof_size\":10485760,\"description\":\"EIP-1186 Merkle Patricia Trie state proof verifier\"}");
        assert(vstd::string::is_ascii(json));
        vstd::string::is_ascii_spec_bytes(json);
        assert(bytes@.len() < 1000);
    }
    n as u32
}

/// Verifies a state proof: returns the valid status, or the invalid status with
/// as much of the reason as fits written to the front of `error_buf`.
pub fn verify(proof: &[u8], inputs: &[u8], error_buf: &mut [u8]) -> (code: u32)
    ensures
        match spec_verify_state_proof(proof@, inputs@) {
            Ok(_) => code == VERIFY_VALID && final(error_buf)@ == old(error_buf)@,
            Err(m) => code == VERIFY_INVALID && final(error_buf)@ == overwrite_front(
                old(error_buf)@,
                encode_utf8(m),
            ),
        },
{
    match verify_state_proof(proof, inputs) {
        Ok(_) => VERIFY_VALID,
        Err(e) => {
            let msg = e.as_str().as_bytes();
            let _n = copy_truncated(msg, error_buf);
            VERIFY_INVALID
        },
    }
}

} // verus!
