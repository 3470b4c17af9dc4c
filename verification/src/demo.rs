//! Sample proofs for the two trie verifiers, built from scratch: a trie of a
//! single leaf, whose hash is the root, and a proof that holds that leaf.
use vstd::prelude::*;
use vstd::slice::slice_to_vec;

use crate::abi::{VERIFY_INVALID, VERIFY_VALID};
use crate::encode::{
    be_fixed, leaf_path, rlp_account, rlp_list, rlp_receipt, rlp_u64,
    spec_receipt_payload, spec_rlp_account, spec_rlp_receipt, spec_rlp_u64, u64_be_bytes,
};
use crate::hashing::{keccak256, keccak256_digest};
use crate::laws::{
    law_encoded_list_is_an_item, law_rlp_u64_encoders_agree, law_single_leaf_receipt_proof,
    law_single_leaf_state_proof,
    spec_leaf_node, spec_single_node_proof,
};
use crate::tx_verifier::spec_verify_receipt_proof;
use crate::state_verifier::spec_verify_state_proof;
use crate::trie::{bytes_to_nibbles, spec_nibbles};

verus! {

/// Thirty-two zero bytes: the storage root and code hash of the sample account.
pub open spec fn zero_hash() -> Seq<u8> {
    Seq::new(32, |_i: int| 0u8)
}

/// A bloom filter with no bit set.
pub open spec fn empty_bloom() -> Seq<u8> {
    Seq::new(256, |_i: int| 0u8)
}

/// A state proof for the account at `address` holding `nonce` and `balance`,
/// with empty storage and code: the proof, and the public inputs (the state
/// root, then the Keccak-256 hash of the address, which is the account's key).
/// The state verifier accepts the pair.
pub fn build_state_proof(address: &[u8], nonce: u64, balance: u128) -> (r: (Vec<u8>, Vec<u8>))
    ensures
        ({
            let key = keccak256_digest(address@);
            let leaf = spec_leaf_node(
                spec_nibbles(key),
                spec_rlp_account(nonce, balance, zero_hash(), zero_hash()),
            );
            &&& r.0@ == spec_single_node_proof(leaf)
            &&& r.1@ == keccak256_digest(leaf) + key
            &&& spec_verify_state_proof(r.0@, r.1@) == Ok::<(), Seq<char>>(())
        }),
{
    let key = keccak256(address);
    let zero = [0u8; 32];
    assert(zero@ =~= zero_hash());
    let account = rlp_account(nonce, balance, &zero, &zero);
    let nibbles = bytes_to_nibbles(key.as_slice());
    let path = leaf_path(nibbles.as_slice());
    let fields: [&[u8]; 2] = [path.as_slice(), account.as_slice()];
    let leaf = rlp_list(&fields);
    assert(crate::encode::slice_views(fields@) =~= seq![path@, account@]);
    let root = keccak256(leaf.as_slice());
    let nodes: [&[u8]; 1] = [leaf.as_slice()];
    let proof = rlp_list(&nodes);
    assert(crate::encode::slice_views(nodes@) =~= seq![leaf@]);
    let mut inputs = slice_to_vec(root.as_slice());
    let mut key_bytes = slice_to_vec(key.as_slice());
    inputs.append(&mut key_bytes);
    proof {
        assert(proof@.len() == proof.len());
        law_single_leaf_state_proof(key@, account@, root@);
    }
    (proof, inputs)
}

/// A receipt proof for a receipt with `status`, `gas` and an empty bloom filter,
/// stored under transaction index `tx_index`: the proof, and the public inputs
/// (the receipts root, then the index as eight big-endian bytes). The receipt
/// verifier accepts the pair.
pub fn build_receipt_proof(tx_index: u64, status: u8, gas: u64) -> (r: (Vec<u8>, Vec<u8>))
    ensures
        ({
            let leaf = spec_leaf_node(
                spec_nibbles(spec_rlp_u64(tx_index)),
                spec_rlp_receipt(status, gas, empty_bloom()),
            );
            &&& r.0@ == spec_single_node_proof(leaf)
            &&& r.1@ == keccak256_digest(leaf) + be_fixed(tx_index as nat, 8)
            &&& spec_verify_receipt_proof(r.0@, r.1@) == Ok::<(), Seq<char>>(())
        }),
{
    let bloom = [0u8; 256];
    assert(bloom@ =~= empty_bloom());
    let no_logs: [&[u8]; 0] = [];
    let receipt = rlp_receipt(status, gas, &no_logs, &bloom);
    let key = rlp_u64(tx_index);
    let nibbles = bytes_to_nibbles(key.as_slice());
    let path = leaf_path(nibbles.as_slice());
    let fields: [&[u8]; 2] = [path.as_slice(), receipt.as_slice()];
    let leaf = rlp_list(&fields);
    assert(crate::encode::slice_views(fields@) =~= seq![path@, receipt@]);
    let root = keccak256(leaf.as_slice());
    let nodes: [&[u8]; 1] = [leaf.as_slice()];
    let proof = rlp_list(&nodes);
    assert(crate::encode::slice_views(nodes@) =~= seq![leaf@]);
    let mut inputs = slice_to_vec(root.as_slice());
    let mut index_bytes = u64_be_bytes(tx_index);
    inputs.append(&mut index_bytes);
    proof {
        assert(proof@.len() == proof.len());
        law_rlp_u64_encoders_agree(tx_index);
        assert(receipt@.len() == receipt.len());
        law_encoded_list_is_an_item(spec_receipt_payload(status, gas, bloom@));
        law_single_leaf_receipt_proof(tx_index, receipt@, root@);
    }
    (proof, inputs)
}

/// The verdict line for a verifier's status code.
pub fn verdict_label(code: u32) -> (s: &'static str)
    ensures
        s@ == if code == VERIFY_VALID {
            "✅ VALID"@
        } else if code == VERIFY_INVALID {
            "❌ INVALID"@
        } else {
            "⚠️  ERROR"@
        },
{
    if code == VERIFY_VALID {
        "✅ VALID"
    } else if code == VERIFY_INVALID {
        "❌ INVALID"
    } else {
        "⚠️  ERROR"
    }
}

} // verus!
