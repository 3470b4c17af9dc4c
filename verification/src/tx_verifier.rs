//! The receipt proof verifier: proves that a transaction receipt is present in
//! a receipts trie with a given root, under the RLP-encoded transaction index.
use vstd::prelude::*;

use crate::abi::{copy_truncated, overwrite_front, VERIFY_INVALID, VERIFY_VALID};
use crate::encode::{be_u64, rlp_encode_u64, spec_rlp_encode_u64, u64_from_be};
use crate::rlp::{decode_rlp_list, read_rlp_item, spec_item, spec_list};
use crate::trie::Dialect;
use crate::trie::{
    bytes_to_nibbles, hash_nodes, hashed_nodes, lemma_nibbles_bounded, matches_at, spec_nibbles,
    spec_walk_result, to_hash, walk_trie,
};
use vstd::utf8::encode_utf8;

verus! {

/// The self-description this verifier reports.
pub open spec fn spec_metadata_json() -> Seq<char> {
    "{\"proof_type_id\":\"tx:receipt\",\"version\":\"0.1.0\",\"curve\":\"\",\"scheme\":\"mpt\",\"supports_recursion\":false,\"trusted_setup_required\":false,\"max_proof_size\":10485760,\"description\":\"Transaction receipt inclusion proof verifier\"}"@
}

/// The outcome of checking `proof` against `inputs`: 32 bytes of receipts root,
/// 8 bytes of big-endian transaction index, then optionally the bytes the
/// receipt must start with.
pub open spec fn spec_verify_receipt_proof(proof: Seq<u8>, inputs: Seq<u8>) -> Result<
    (),
    Seq<char>,
> {
    if inputs.len() < 40 {
        Err(
            "public inputs too short: need receipts_root (32 bytes) + tx_index (8 bytes BE)"@,
        )
    } else {
        let root = inputs.take(32);
        let tx_index = be_u64(inputs.subrange(32, 40));
        let extra = inputs.skip(40);
        match spec_list(proof) {
            None => Err("failed to decode proof RLP"@),
            Some(nodes) => if nodes.len() == 0 {
                Err("empty proof"@)
            } else {
                match spec_walk_result(
                    hashed_nodes(nodes),
                    root,
                    spec_nibbles(spec_rlp_encode_u64(tx_index)),
                    Dialect::Receipt,
                ) {
                    Err(m) => Err(m),
                    Ok(value) => match spec_item(value) {
                        None => Err("failed to decode receipt RLP"@),
                        Some(_) => if extra.len() > 0 && extra.len() <= value.len() && extra
                            != value.take(extra.len() as int) {
                            Err("receipt data mismatch with expected"@)
                        } else {
                            Ok(())
                        },
                    },
                }
            },
        }
    }
}

/// Checks a receipt proof; on rejection, the message says why.
pub fn verify_receipt_proof(proof: &[u8], inputs: &[u8]) -> (r: Result<(), String>)
    ensures
        match spec_verify_receipt_proof(proof@, inputs@) {
            Ok(_) => r is Ok,
            Err(m) => r matches Err(e) && e@ == m,
        },
{
    if inputs.len() < 40 {
        return Err(
            String::from_str(
                "public inputs too short: need receipts_root (32 bytes) + tx_index (8 bytes BE)",
            ),
        );
    }
    let receipts_root = to_hash(&inputs[0..32]);
    assert(receipts_root@ =~= inputs@.take(32));
    let index_bytes = &inputs[32..40];
    let tx_index = u64_from_be(index_bytes);
    assert(index_bytes@.take(8) =~= inputs@.subrange(32, 40));
    let extra = &inputs[40..inputs.len()];
    assert(extra@ =~= inputs@.skip(40));
    let key = rlp_encode_u64(tx_index);
    let nodes = match decode_rlp_list(proof) {
        Some(n) => n,
        None => return Err(String::from_str("failed to decode proof RLP")),
    };
    if nodes.len() == 0 {
        return Err(String::from_str("empty proof"));
    }
    let node_map = hash_nodes(&nodes);
    let nibbles = bytes_to_nibbles(key.as_slice());
    proof {
        lemma_nibbles_bounded(key@);
    }
    let value = match walk_trie(&node_map, receipts_root, nibbles.as_slice(), Dialect::Receipt) {
        Ok(v) => v,
        Err(e) => return Err(e),
    };
    if read_rlp_item(value.as_slice()).is_none() {
        return Err(String::from_str("failed to decode receipt RLP"));
    }
    if extra.len() > 0 {
        if extra.len() <= value.len() {
            assert(value@.subrange(0, extra@.len() as int) =~= value@.take(extra@.len() as int));
            if !matches_at(extra, value.as_slice(), 0) {
                return Err(String::from_str("receipt data mismatch with expected"));
            }
        }
    }
    Ok(())
}

/// Writes this verifier's self-description, as JSON, to the front of `buf`,
/// as much of it as fits, and returns how many bytes were written.
pub fn metadata(buf: &mut [u8]) -> (n: u32)
    ensures
        n as int == if encode_utf8(spec_metadata_json()).len() <= old(buf)@.len() {
            encode_utf8(spec_metadata_json()).len() as int
        } else {
            old(buf)@.len() as int
        },
        final(buf)@ == overwrite_front(old(buf)@, encode_utf8(spec_metadata_json())),
{
    let json = "{\"proof_type_id\":\"tx:receipt\",\"version\":\"0.1.0\",\"curve\":\"\",\"scheme\":\"mpt\",\"supports_recursion\":false,\"trusted_setup_required\":false,\"max_proof_size\":10485760,\"description\":\"Transaction receipt inclusion proof verifier\"}";
    let bytes = json.as_bytes();
    let n = copy_truncated(bytes, buf);
    proof {
        reveal_strlit("{\"proof_type_id\":\"tx:receipt\",\"version\":\"0.1.0\",\"curve\":\"\",\"scheme\":\"mpt\",\"supports_recursion\":false,\"trusted_setup_required\":false,\"max_proof_size\":10485760,\"description\":\"Transaction receipt inclusion proof verifier\"}");
        assert(vstd::string::is_ascii(json));
        vstd::string::is_ascii_spec_bytes(json);
        assert(bytes@.len() < 1000);
    }
    n as u32
}

/// Verifies a receipt proof: returns the valid status, or the invalid status
/// with as much of the reason as fits written to the front of `error_buf`.
pub fn verify(proof: &[u8], inputs: &[u8], error_buf: &mut [u8]) -> (code: u32)
    ensures
        match spec_verify_receipt_proof(proof@, inputs@) {
            Ok(_) => code == VERIFY_VALID && final(error_buf)@ == old(error_buf)@,
            Err(m) => code == VERIFY_INVALID && final(error_buf)@ == overwrite_front(
                old(error_buf)@,
                encode_utf8(m),
            ),
        },
{
    match verify_receipt_proof(proof, inputs) {
        Ok(_) => VERIFY_VALID,
        Err(e) => write_error(e, error_buf),
    }
}

/// Writes as much of `msg` as fits to the front of `buf` and returns the invalid status.
pub fn write_error(msg: String, buf: &mut [u8]) -> (code: u32)
    ensures
        code == VERIFY_INVALID,
        final(buf)@ == overwrite_front(old(buf)@, encode_utf8(msg@)),
{
    let bytes = msg.as_str().as_bytes();
    let _n = copy_truncated(bytes, buf);
    VERIFY_INVALID
}

} // verus!
