//! Properties that relate the encoders, the decoders and the verifiers.
use vstd::prelude::*;

use crate::encode::{
    be_minimal, lemma_be_minimal_len, pow256, spec_rlp_header, spec_rlp_item, spec_rlp_list,
    spec_rlp_payload,
};
use crate::encode::{first_nonzero, spec_be_number_item, spec_leaf_path, spec_pack_nibbles};
use crate::rlp::{be_usize, prepend_items, spec_header, spec_item, spec_items, spec_list};
use crate::trie::Dialect;
use crate::encode::{be_fixed, be_u64, spec_rlp_encode_u64, spec_rlp_u64, lemma_be_minimal_len_u64};
use crate::storage::{InMemoryStorage, StorageProvider};
use crate::composition::CompositionGraph;
use crate::abi::{overwrite_front, VERIFY_ERROR, VERIFY_INVALID, VERIFY_VALID};
use crate::types::{is_white_space, spec_from_code, strip_trailing_nul, trim_whitespace};
use vstd::utf8::{decode_utf8, encode_utf8, valid_utf8};
use crate::registry::{indexed_under, VerifierMetadata, VerifierRegistry};
use crate::hashing::keccak256_digest;
use crate::state_verifier::spec_verify_state_proof;
use crate::text::all_nibbles;
use crate::trie::{
    hashed_nodes, is_empty_slot, lemma_nibbles_bounded, spec_lookup, spec_walk, spec_walk_result,
    walk_fuel,
};
use crate::tx_verifier::spec_verify_receipt_proof;
use crate::trie::{spec_hex_prefix_nibbles, spec_nibbles};

verus! {

/// Reading back the minimal big-endian bytes of a length gives the length.
pub proof fn law_be_usize_of_be_minimal(n: nat)
    requires
        n <= usize::MAX,
    ensures
        be_usize(be_minimal(n)) == n,
    decreases n,
{
    if n > 0 {
        law_be_usize_of_be_minimal(n / 256);
        let s = be_minimal(n);
        assert(s.drop_last() == be_minimal(n / 256));
        assert(s.last() == (n % 256) as u8);
        let x = n as usize;
        assert((((x / 256) << 8usize) | ((x % 256) as u8 as usize)) == x) by (bit_vector);
    }
}

/// The bytes of a length are between one and eight.
proof fn lemma_length_bytes(n: nat)
    requires
        0 < n <= usize::MAX,
    ensures
        1 <= be_minimal(n).len() <= 8,
{
    reveal_with_fuel(pow256, 9);
    lemma_be_minimal_len(n, 8);
}

/// Decoding the first item of an encoded string followed by anything gives
/// the string and the length of its encoding.
pub proof fn law_item_of_encoding(x: Seq<u8>, rest: Seq<u8>)
    requires
        x.len() <= usize::MAX,
    ensures
        spec_item(spec_rlp_item(x) + rest) == Some((x, spec_rlp_item(x).len() as int)),
{
    let enc = spec_rlp_item(x);
    let data = enc + rest;
    if x.len() == 1 && x[0] < 0x80 {
        assert(data.subrange(0, 1) =~= x);
    } else if x.len() <= 55 {
        assert(data[0] == (0x80 + x.len()) as u8);
        assert(data.subrange(1, 1 + x.len() as int) =~= x);
    } else {
        let lb = be_minimal(x.len());
        lemma_length_bytes(x.len());
        law_be_usize_of_be_minimal(x.len());
        let k = lb.len() as int;
        assert(data[0] == (0x80 + 55 + k) as u8);
        assert(data.subrange(1, 1 + k) =~= lb);
        assert(data.subrange(1 + k, 1 + k + x.len()) =~= x);
    }
}

/// Reading the items of a payload that starts with an encoded string gives the
/// string, then the items of the rest.
proof fn lemma_items_prepend(x: Seq<u8>, rest: Seq<u8>)
    requires
        x.len() <= usize::MAX,
    ensures
        spec_items(spec_rlp_item(x) + rest) == prepend_items(
            seq![x],
            spec_items(rest),
        ),
{
    let data = spec_rlp_item(x) + rest;
    law_item_of_encoding(x, rest);
    let n = spec_rlp_item(x).len() as int;
    assert(data.skip(n) =~= rest);
    assert(data.len() > 0);
}

/// The payload of a list starts with the encoding of its first item.
proof fn lemma_payload_front(items: Seq<Seq<u8>>)
    requires
        items.len() > 0,
    ensures
        spec_rlp_payload(items) == spec_rlp_item(items[0]) + spec_rlp_payload(items.drop_first()),
    decreases items.len(),
{
    if items.len() == 1 {
        assert(items.drop_last().len() == 0);
        assert(items.drop_first().len() == 0);
        assert(spec_rlp_payload(items.drop_last()) =~= Seq::<u8>::empty());
        assert(spec_rlp_payload(items.drop_first()) =~= Seq::<u8>::empty());
        assert(items.last() == items[0]);
        assert(spec_rlp_payload(items) =~= spec_rlp_item(items[0]) + Seq::<u8>::empty());
    } else {
        lemma_payload_front(items.drop_last());
        assert(items.drop_last().drop_first() =~= items.drop_first().drop_last());
        assert(items.drop_first().last() == items.last());
        assert(items.drop_last()[0] == items[0]);
    }
}

/// Every string of a list is no longer than the list's payload.
proof fn lemma_payload_bounds(items: Seq<Seq<u8>>)
    ensures
        forall|i: int| 0 <= i < items.len() ==> #[trigger] items[i].len() <= spec_rlp_payload(
            items,
        ).len(),
    decreases items.len(),
{
    if items.len() > 0 {
        lemma_payload_bounds(items.drop_last());
        assert forall|i: int| 0 <= i < items.len() implies #[trigger] items[i].len()
            <= spec_rlp_payload(items).len() by {
            if i < items.len() - 1 {
                assert(items.drop_last()[i] == items[i]);
            }
        }
    }
}

/// Reading the items of an encoded payload gives back the strings.
pub proof fn law_items_of_payload(items: Seq<Seq<u8>>)
    requires
        spec_rlp_payload(items).len() <= usize::MAX,
    ensures
        spec_items(spec_rlp_payload(items)) == Some(items),
    decreases items.len(),
{
    if items.len() == 0 {
        assert(spec_rlp_payload(items) =~= Seq::<u8>::empty());
        assert(items =~= Seq::<Seq<u8>>::empty());
    } else {
        lemma_payload_bounds(items);
        lemma_payload_front(items);
        let tail = items.drop_first();
        assert(spec_rlp_payload(tail).len() <= spec_rlp_payload(items).len());
        law_items_of_payload(tail);
        lemma_items_prepend(items[0], spec_rlp_payload(tail));
        assert(seq![items[0]] + tail =~= items);
    }
}

/// The header of a list whose payload is `p` reads back as its own length and
/// the length of the payload, which follows it.
proof fn lemma_list_header_of(p: Seq<u8>)
    requires
        p.len() <= usize::MAX,
    ensures
        spec_header(spec_rlp_header(0xc0, p.len()) + p, 0xc0) == Some(
            (spec_rlp_header(0xc0, p.len()).len() as int, p.len() as int),
        ),
        (spec_rlp_header(0xc0, p.len()) + p).subrange(
            spec_rlp_header(0xc0, p.len()).len() as int,
            (spec_rlp_header(0xc0, p.len()) + p).len() as int,
        ) == p,
        (spec_rlp_header(0xc0, p.len()) + p).len() > 0,
        (spec_rlp_header(0xc0, p.len()) + p)[0] >= 0xc0,
{
    let data = spec_rlp_header(0xc0, p.len()) + p;
    if p.len() <= 55 {
        assert(data[0] == (0xc0 + p.len()) as u8);
        assert(spec_header(data, 0xc0) == Some((1int, p.len() as int)));
        assert(data.subrange(1, data.len() as int) =~= p);
    } else {
        let lb = be_minimal(p.len());
        lemma_length_bytes(p.len());
        law_be_usize_of_be_minimal(p.len());
        let k = lb.len() as int;
        assert(data[0] == (0xc0 + 55 + k) as u8);
        assert(data.subrange(1, 1 + k) =~= lb);
        assert(spec_header(data, 0xc0) == Some((1 + k, p.len() as int)));
        assert(data.subrange(1 + k, data.len() as int) =~= p);
    }
}

/// Decoding an encoded list of strings gives back the strings.
pub proof fn law_list_roundtrip(items: Seq<Seq<u8>>)
    requires
        spec_rlp_payload(items).len() <= usize::MAX,
    ensures
        spec_list(spec_rlp_list(items)) == Some(items),
{
    let data = spec_rlp_list(items);
    law_items_of_payload(items);
    lemma_list_header_of(spec_rlp_payload(items));
    let h = spec_rlp_header(0xc0, spec_rlp_payload(items).len()).len() as int;
    assert(data.subrange(h, h + spec_rlp_payload(items).len()) =~= data.subrange(
        h,
        data.len() as int,
    ));
}

/// An RLP list, short or long, reads as a single item: the whole encoding.
pub proof fn law_encoded_list_is_an_item(payload: Seq<u8>)
    requires
        payload.len() <= usize::MAX,
    ensures
        spec_item(spec_rlp_header(0xc0, payload.len()) + payload) == Some(
            (
                spec_rlp_header(0xc0, payload.len()) + payload,
                (spec_rlp_header(0xc0, payload.len()) + payload).len() as int,
            ),
        ),
{
    lemma_list_header_of(payload);
    let data = spec_rlp_header(0xc0, payload.len()) + payload;
    assert(data.subrange(0, data.len() as int) =~= data);
}

/// Splitting packed nibbles gives them back.
proof fn lemma_unpack(n: Seq<u8>)
    requires
        n.len() % 2 == 0,
        all_nibbles(n),
    ensures
        spec_nibbles(spec_pack_nibbles(n)) == n,
    decreases n.len(),
{
    if n.len() >= 2 {
        let front = n.take(n.len() - 2);
        assert(all_nibbles(front)) by {
            assert forall|i: int| 0 <= i < front.len() implies #[trigger] front[i] < 16 by {
                assert(front[i] == n[i]);
            }
        }
        lemma_unpack(front);
        let a = n[n.len() - 2];
        let b = n[n.len() - 1];
        assert(a < 16 && b < 16);
        let byte = ((a << 4u8) | b) as u8;
        assert(a < 16 && b < 16 ==> (((a << 4u8) | b) as u8) >> 4u8 == a && (((a << 4u8) | b)
            as u8) & 0x0fu8 == b) by (bit_vector);
        let packed = spec_pack_nibbles(n);
        assert(packed.drop_last() == spec_pack_nibbles(front));
        assert(packed.last() == byte);
        assert(spec_nibbles(packed) =~= front + seq![a, b]);
        assert(front + seq![a, b] =~= n);
    } else {
        assert(n.len() == 0);
        assert(spec_nibbles(spec_pack_nibbles(n)) =~= n);
    }
}

/// A leaf path's hex-prefix encoding decodes to the path, flagged as a leaf.
pub proof fn law_leaf_path_roundtrip(nibbles: Seq<u8>)
    requires
        all_nibbles(nibbles),
    ensures
        spec_leaf_path(nibbles).len() > 0,
        spec_leaf_path(nibbles)[0] & 0x20 != 0,
        spec_hex_prefix_nibbles(spec_leaf_path(nibbles)[0], spec_leaf_path(nibbles).skip(1))
            == nibbles,
{
    let p = spec_leaf_path(nibbles);
    if nibbles.len() % 2 != 0 {
        let a = nibbles[0];
        assert(a < 16);
        let rest = nibbles.skip(1);
        assert(all_nibbles(rest)) by {
            assert forall|i: int| 0 <= i < rest.len() implies #[trigger] rest[i] < 16 by {
                assert(rest[i] == nibbles[i + 1]);
            }
        }
        lemma_unpack(rest);
        assert(p.skip(1) =~= spec_pack_nibbles(rest));
        assert(a < 16 ==> ((0x30u8 | a) as u8) & 0x20u8 != 0 && ((0x30u8 | a) as u8) & 0x10u8 != 0
            && ((0x30u8 | a) as u8) & 0x0fu8 == a) by (bit_vector);
        assert(seq![a] + rest =~= nibbles);
    } else {
        lemma_unpack(nibbles);
        assert(p.skip(1) =~= spec_pack_nibbles(nibbles));
        assert(0x20u8 & 0x20u8 != 0 && 0x20u8 & 0x10u8 == 0) by (bit_vector);
    }
}

/// A leaf node: the list of the hex-prefix encoded path and the value.
pub open spec fn spec_leaf_node(nibbles: Seq<u8>, value: Seq<u8>) -> Seq<u8> {
    spec_rlp_list(seq![spec_leaf_path(nibbles), value])
}

/// A proof made of one node.
pub open spec fn spec_single_node_proof(node: Seq<u8>) -> Seq<u8> {
    spec_rlp_list(seq![node])
}

/// The payload of a list is no longer than the list.
proof fn lemma_list_len(items: Seq<Seq<u8>>)
    ensures
        spec_rlp_payload(items).len() <= spec_rlp_list(items).len(),
        forall|i: int| 0 <= i < items.len() ==> #[trigger] items[i].len() <= spec_rlp_list(
            items,
        ).len(),
{
    lemma_payload_bounds(items);
}

/// Walking a one-node trie whose root is the hash of a leaf, along the leaf's
/// path, ends at the leaf's value.
proof fn lemma_single_leaf_walk(nibbles: Seq<u8>, value: Seq<u8>, root: Seq<u8>, dialect: Dialect)
    requires
        all_nibbles(nibbles),
        root == keccak256_digest(spec_leaf_node(nibbles, value)),
        spec_rlp_payload(seq![spec_leaf_path(nibbles), value]).len() <= usize::MAX,
    ensures
        spec_walk_result(
            hashed_nodes(seq![spec_leaf_node(nibbles, value)]),
            root,
            nibbles,
            dialect,
        ) == Ok::<Seq<u8>, Seq<char>>(value),
{
    let leaf = spec_leaf_node(nibbles, value);
    let nodes = hashed_nodes(seq![leaf]);
    let path = spec_leaf_path(nibbles);
    law_list_roundtrip(seq![path, value]);
    law_leaf_path_roundtrip(nibbles);
    assert(nodes[0] == (root, leaf));
    assert(spec_lookup(nodes, root) == Some(leaf));
    assert(nibbles.skip(0) =~= nibbles);
    assert(walk_fuel(nodes.len(), nibbles.len()) > 0);
}

/// A proof made of a single leaf node, whose hash is the state root and whose
/// path is the whole key, is accepted by the state verifier.
pub proof fn law_single_leaf_state_proof(key: Seq<u8>, value: Seq<u8>, root: Seq<u8>)
    requires
        root == keccak256_digest(spec_leaf_node(spec_nibbles(key), value)),
        root.len() == 32,
        spec_single_node_proof(spec_leaf_node(spec_nibbles(key), value)).len() <= usize::MAX,
    ensures
        spec_verify_state_proof(
            spec_single_node_proof(spec_leaf_node(spec_nibbles(key), value)),
            root + key,
        ) == Ok::<(), Seq<char>>(()),
{
    let nibbles = spec_nibbles(key);
    lemma_nibbles_bounded(key);
    let leaf = spec_leaf_node(nibbles, value);
    lemma_list_len(seq![leaf]);
    assert(seq![leaf][0] == leaf);
    lemma_list_len(seq![spec_leaf_path(nibbles), value]);
    law_list_roundtrip(seq![leaf]);
    lemma_single_leaf_walk(nibbles, value, root, Dialect::Account);
    let inputs = root + key;
    assert(inputs.take(32) =~= root);
    assert(inputs.skip(32) =~= key);
}

/// Reading back the eight big-endian bytes of a number gives the number.
pub proof fn law_be_u64_of_be_fixed(n: u64)
    ensures
        be_u64(be_fixed(n as nat, 8)) == n,
{
    reveal_with_fuel(pow256, 9);
    lemma_be_u64_prefix(n as nat, 8);
    assert(pow256(8) == 0x1_0000_0000_0000_0000);
    vstd::arithmetic::div_mod::lemma_small_mod(n as nat, pow256(8));
}

/// The last `w` big-endian bytes of `n` read back as `n` modulo 256^w.
proof fn lemma_be_u64_prefix(n: nat, w: nat)
    requires
        w <= 8,
    ensures
        be_u64(be_fixed(n, w)) == n % pow256(w),
    decreases w,
{
    reveal_with_fuel(pow256, 9);
    if w == 0 {
        assert(be_fixed(n, 0) =~= Seq::<u8>::empty());
    } else {
        let w1 = (w - 1) as nat;
        lemma_be_u64_prefix(n / 256, w1);
        let s = be_fixed(n, w);
        assert(s.drop_last() == be_fixed(n / 256, w1));
        assert(s.last() == (n % 256) as u8);
        let p = pow256(w1);
        assert(p <= 0x100_0000_0000_0000) by {
            lemma_pow256_le(w1, 7);
        }
        let m = ((n / 256) % p) as u64;
        assert(m < 0x100_0000_0000_0000) by {
            vstd::arithmetic::div_mod::lemma_mod_bound((n / 256) as int, p as int);
        }
        let r = (n % 256) as u8;
        assert(m < 0x100_0000_0000_0000 ==> ((m << 8u64) | (r as u64)) == m * 256 + r) by (bit_vector);
        vstd::arithmetic::div_mod::lemma_mod_breakdown(n as int, 256, p as int);
        assert(pow256(w) == 256 * p);
    }
}

/// Powers of 256 grow with the exponent.
proof fn lemma_pow256_le(a: nat, b: nat)
    requires
        a <= b,
    ensures
        pow256(a) <= pow256(b),
    decreases b,
{
    if a < b {
        lemma_pow256_le(a, (b - 1) as nat);
        lemma_pow256_pos((b - 1) as nat);
    }
}

/// Powers of 256 are positive.
proof fn lemma_pow256_pos(a: nat)
    ensures
        pow256(a) >= 1,
    decreases a,
{
    if a > 0 {
        lemma_pow256_pos((a - 1) as nat);
    }
}

/// A proof made of a single leaf node, whose hash is the receipts root and
/// whose path is the RLP-encoded transaction index, is accepted by the receipt
/// verifier when the value reads as an RLP item and nothing is expected of it.
pub proof fn law_single_leaf_receipt_proof(tx_index: u64, value: Seq<u8>, root: Seq<u8>)
    requires
        root == keccak256_digest(
            spec_leaf_node(spec_nibbles(spec_rlp_encode_u64(tx_index)), value),
        ),
        root.len() == 32,
        spec_single_node_proof(
            spec_leaf_node(spec_nibbles(spec_rlp_encode_u64(tx_index)), value),
        ).len() <= usize::MAX,
        spec_item(value) is Some,
    ensures
        spec_verify_receipt_proof(
            spec_single_node_proof(
                spec_leaf_node(spec_nibbles(spec_rlp_encode_u64(tx_index)), value),
            ),
            root + be_fixed(tx_index as nat, 8),
        ) == Ok::<(), Seq<char>>(()),
{
    let key = spec_rlp_encode_u64(tx_index);
    let nibbles = spec_nibbles(key);
    lemma_nibbles_bounded(key);
    let leaf = spec_leaf_node(nibbles, value);
    lemma_list_len(seq![leaf]);
    assert(seq![leaf][0] == leaf);
    lemma_list_len(seq![spec_leaf_path(nibbles), value]);
    law_list_roundtrip(seq![leaf]);
    lemma_single_leaf_walk(nibbles, value, root, Dialect::Receipt);
    let index_bytes = be_fixed(tx_index as nat, 8);
    assert(index_bytes.len() == 8) by {
        lemma_be_fixed_len(tx_index as nat, 8);
    }
    law_be_u64_of_be_fixed(tx_index);
    let inputs = root + index_bytes;
    assert(inputs.take(32) =~= root);
    assert(inputs.subrange(32, 40) =~= index_bytes);
    assert(inputs.skip(40).len() == 0);
}

/// A fixed-width encoding has the width.
proof fn lemma_be_fixed_len(n: nat, w: nat)
    ensures
        be_fixed(n, w).len() == w,
    decreases w,
{
    if w > 0 {
        lemma_be_fixed_len(n / 256, (w - 1) as nat);
    }
}

/// Some node of the proof has the given hash when a lookup succeeds.
proof fn lemma_lookup_found(nodes: Seq<(Seq<u8>, Seq<u8>)>, hash: Seq<u8>)
    requires
        spec_lookup(nodes, hash) is Some,
    ensures
        exists|i: int| 0 <= i < nodes.len() && (#[trigger] nodes[i]).0 == hash,
    decreases nodes.len(),
{
    if nodes[0].0 != hash {
        lemma_lookup_found(nodes.drop_first(), hash);
        let i = choose|i: int| 0 <= i < nodes.drop_first().len() && (#[trigger] nodes.drop_first()[i]).0 == hash;
        assert(nodes[i + 1] == nodes.drop_first()[i]);
    }
}

/// A state proof is accepted only if the state root is the Keccak-256 hash of
/// one of the proof's nodes.
pub proof fn law_state_root_is_a_node_hash(proof: Seq<u8>, inputs: Seq<u8>)
    requires
        spec_verify_state_proof(proof, inputs) is Ok,
    ensures
        spec_list(proof) matches Some(nodes) && exists|i: int|
            0 <= i < nodes.len() && keccak256_digest(#[trigger] nodes[i]) == inputs.take(32),
{
    let nodes = spec_list(proof)->0;
    let entries = hashed_nodes(nodes);
    assert(walk_fuel(entries.len(), spec_nibbles(inputs.skip(32)).len()) > 0);
    lemma_lookup_found(entries, inputs.take(32));
    let i = choose|i: int| 0 <= i < entries.len() && (#[trigger] entries[i]).0 == inputs.take(32);
    assert(keccak256_digest(nodes[i]) == inputs.take(32));
}

/// A receipt proof is accepted only if the receipts root is the Keccak-256
/// hash of one of the proof's nodes.
pub proof fn law_receipts_root_is_a_node_hash(proof: Seq<u8>, inputs: Seq<u8>)
    requires
        spec_verify_receipt_proof(proof, inputs) is Ok,
    ensures
        spec_list(proof) matches Some(nodes) && exists|i: int|
            0 <= i < nodes.len() && keccak256_digest(#[trigger] nodes[i]) == inputs.take(32),
{
    let nodes = spec_list(proof)->0;
    let entries = hashed_nodes(nodes);
    let key = spec_nibbles(spec_rlp_encode_u64(be_u64(inputs.subrange(32, 40))));
    assert(walk_fuel(entries.len(), key.len()) > 0);
    lemma_lookup_found(entries, inputs.take(32));
    let i = choose|i: int| 0 <= i < entries.len() && (#[trigger] entries[i]).0 == inputs.take(32);
    assert(keccak256_digest(nodes[i]) == inputs.take(32));
}

/// The two encoders of a number as an RLP string agree.
pub proof fn law_rlp_u64_encoders_agree(n: u64)
    ensures
        spec_rlp_u64(n) == spec_rlp_encode_u64(n),
{
    if n != 0 {
        lemma_be_minimal_len_u64(n);
        let b = be_minimal(n as nat);
        if !(b.len() == 1 && b[0] < 0x80) {
            assert(spec_rlp_header(0x80, b.len()) =~= seq![(0x80 + b.len()) as u8]);
        }
    }
}

/// A verification key that was stored is found, unchanged.
pub proof fn law_storage_read_after_write(
    before: InMemoryStorage,
    after: InMemoryStorage,
    key_id: Seq<char>,
    key: Seq<u8>,
)
    requires
        after.verification_keys() == before.verification_keys().insert(key_id, key),
    ensures
        after.verification_key_result(key_id) == Ok::<Seq<u8>, Seq<char>>(key),
{
}

/// Storing a verification key leaves the lookups of other ids as they were.
pub proof fn law_storage_write_is_local(
    before: InMemoryStorage,
    after: InMemoryStorage,
    key_id: Seq<char>,
    key: Seq<u8>,
    other: Seq<char>,
)
    requires
        after.verification_keys() == before.verification_keys().insert(key_id, key),
        other != key_id,
    ensures
        after.verification_key_result(other) == before.verification_key_result(other),
{
}

/// After a dependency is added, it is the last dependency of its verifier,
/// after the earlier ones.
pub proof fn law_dependency_appended(
    before: CompositionGraph,
    after: CompositionGraph,
    verifier: Seq<char>,
    depends_on: Seq<char>,
)
    requires
        after.dependencies() == before.dependencies().insert(
            verifier,
            (if before.dependencies().contains_key(verifier) {
                before.dependencies()[verifier]
            } else {
                Seq::empty()
            }).push(depends_on),
        ),
    ensures
        after.dependencies().contains_key(verifier),
        after.dependencies()[verifier].last() == depends_on,
        after.dependencies()[verifier].drop_last() == (if before.dependencies().contains_key(
            verifier,
        ) {
            before.dependencies()[verifier]
        } else {
            Seq::empty()
        }),
{
}

/// Byte strings of one length with the same nibbles are equal.
proof fn lemma_nibbles_injective(x: Seq<u8>, y: Seq<u8>)
    requires
        x.len() == y.len(),
        spec_nibbles(x) == spec_nibbles(y),
    ensures
        x == y,
    decreases x.len(),
{
    if x.len() > 0 {
        lemma_nibbles_bounded(x.drop_last());
        lemma_nibbles_bounded(y.drop_last());
        let nx = spec_nibbles(x);
        let k = 2 * (x.len() - 1);
        assert(nx.take(k) =~= spec_nibbles(x.drop_last()));
        assert(spec_nibbles(y).take(k) =~= spec_nibbles(y.drop_last()));
        lemma_nibbles_injective(x.drop_last(), y.drop_last());
        let (a, b) = (x.last(), y.last());
        assert(nx[k] == a >> 4 && nx[k + 1] == a & 0x0f);
        assert(spec_nibbles(y)[k] == b >> 4 && spec_nibbles(y)[k + 1] == b & 0x0f);
        assert(a >> 4 == b >> 4 && a & 0x0f == b & 0x0f ==> a == b) by (bit_vector);
        assert(x =~= x.drop_last().push(a));
        assert(y =~= y.drop_last().push(b));
    }
}

/// Byte strings with the same nibbles are equal.
proof fn lemma_nibbles_equal(a: Seq<u8>, b: Seq<u8>)
    requires
        spec_nibbles(a) == spec_nibbles(b),
    ensures
        a == b,
{
    lemma_nibbles_bounded(a);
    lemma_nibbles_bounded(b);
    lemma_nibbles_injective(a, b);
}

/// Different numbers have different minimal big-endian bytes.
proof fn lemma_be_minimal_injective(n: nat, m: nat)
    requires
        be_minimal(n) == be_minimal(m),
    ensures
        n == m,
    decreases n,
{
    if n > 0 && m > 0 {
        let (bn, bm) = (be_minimal(n), be_minimal(m));
        assert(bn.last() == (n % 256) as u8 && bm.last() == (m % 256) as u8);
        assert(bn.drop_last() =~= be_minimal(n / 256));
        assert(bm.drop_last() =~= be_minimal(m / 256));
        lemma_be_minimal_injective(n / 256, m / 256);
    } else if n > 0 {
        assert(be_minimal(n).len() > 0);
    } else if m > 0 {
        assert(be_minimal(m).len() > 0);
    }
}

/// The RLP encoding of one transaction index never begins the encoding of
/// another.
proof fn lemma_index_encoding_prefix_free(i: u64, j: u64)
    requires
        spec_rlp_encode_u64(i).len() <= spec_rlp_encode_u64(j).len(),
        spec_rlp_encode_u64(j).take(spec_rlp_encode_u64(i).len() as int) == spec_rlp_encode_u64(i),
    ensures
        i == j,
{
    let (a, b) = (spec_rlp_encode_u64(i), spec_rlp_encode_u64(j));
    let (bi, bj) = (be_minimal(i as nat), be_minimal(j as nat));
    lemma_be_minimal_len_u64(i);
    lemma_be_minimal_len_u64(j);
    assert(a[0] == b.take(a.len() as int)[0]);
    if i != 0 {
        assert(bi.len() > 0);
    }
    if j != 0 {
        assert(bj.len() > 0);
    }
    if i != 0 && j != 0 {
        if bi.len() == 1 && bi[0] < 0x80 {
            if bj.len() == 1 && bj[0] < 0x80 {
                assert(bi =~= bj);
            }
        } else if !(bj.len() == 1 && bj[0] < 0x80) {
            assert(bi.len() == bj.len());
            assert(a.skip(1) =~= bi);
            assert(b.skip(1) =~= bj);
            assert(b.take(a.len() as int) =~= b);
        }
        lemma_be_minimal_injective(i as nat, j as nat);
    }
}

/// Walking a one-node trie whose root is the hash of a leaf, along a key other
/// than the leaf's path, fails.
proof fn lemma_single_leaf_walk_elsewhere(
    nibbles: Seq<u8>,
    value: Seq<u8>,
    root: Seq<u8>,
    other: Seq<u8>,
    dialect: Dialect,
)
    requires
        all_nibbles(nibbles),
        root == keccak256_digest(spec_leaf_node(nibbles, value)),
        spec_rlp_payload(seq![spec_leaf_path(nibbles), value]).len() <= usize::MAX,
        nibbles != other,
    ensures
        spec_walk_result(hashed_nodes(seq![spec_leaf_node(nibbles, value)]), root, other, dialect)
            is Err,
{
    let leaf = spec_leaf_node(nibbles, value);
    let nodes = hashed_nodes(seq![leaf]);
    let path = spec_leaf_path(nibbles);
    law_list_roundtrip(seq![path, value]);
    law_leaf_path_roundtrip(nibbles);
    assert(nodes[0] == (root, leaf));
    assert(spec_lookup(nodes, root) == Some(leaf));
    assert(other.skip(0) =~= other);
    assert(walk_fuel(nodes.len(), other.len()) > 0);
}

/// A proof made of a single leaf, whose hash is the state root and whose path
/// is the nibbles of `key`, is accepted for `key` and for no other key.
pub proof fn law_single_leaf_state_proof_keys(
    key: Seq<u8>,
    value: Seq<u8>,
    root: Seq<u8>,
    other: Seq<u8>,
)
    requires
        root == keccak256_digest(spec_leaf_node(spec_nibbles(key), value)),
        root.len() == 32,
        spec_single_node_proof(spec_leaf_node(spec_nibbles(key), value)).len() <= usize::MAX,
    ensures
        spec_verify_state_proof(
            spec_single_node_proof(spec_leaf_node(spec_nibbles(key), value)),
            root + other,
        ) is Ok <==> other == key,
{
    if other == key {
        law_single_leaf_state_proof(key, value, root);
    } else {
        let nibbles = spec_nibbles(key);
        lemma_nibbles_bounded(key);
        let leaf = spec_leaf_node(nibbles, value);
        lemma_list_len(seq![leaf]);
        assert(seq![leaf][0] == leaf);
        lemma_list_len(seq![spec_leaf_path(nibbles), value]);
        law_list_roundtrip(seq![leaf]);
        let inputs = root + other;
        assert(inputs.take(32) =~= root);
        assert(inputs.skip(32) =~= other);
        if nibbles == spec_nibbles(other) {
            lemma_nibbles_equal(key, other);
        }
        lemma_single_leaf_walk_elsewhere(nibbles, value, root, spec_nibbles(other), Dialect::Account);
    }
}

/// A proof made of a single receipt leaf, whose hash is the receipts root and
/// whose path is the RLP-encoded transaction index, is accepted for that index
/// and no other, when the receipt reads as an RLP item.
pub proof fn law_single_leaf_receipt_proof_index(
    tx_index: u64,
    value: Seq<u8>,
    root: Seq<u8>,
    other: u64,
)
    requires
        root == keccak256_digest(
            spec_leaf_node(spec_nibbles(spec_rlp_encode_u64(tx_index)), value),
        ),
        root.len() == 32,
        spec_single_node_proof(
            spec_leaf_node(spec_nibbles(spec_rlp_encode_u64(tx_index)), value),
        ).len() <= usize::MAX,
        spec_item(value) is Some,
    ensures
        spec_verify_receipt_proof(
            spec_single_node_proof(
                spec_leaf_node(spec_nibbles(spec_rlp_encode_u64(tx_index)), value),
            ),
            root + be_fixed(other as nat, 8),
        ) is Ok <==> other == tx_index,
{
    if other == tx_index {
        law_single_leaf_receipt_proof(tx_index, value, root);
    } else {
        let key = spec_rlp_encode_u64(tx_index);
        let other_key = spec_rlp_encode_u64(other);
        let nibbles = spec_nibbles(key);
        lemma_nibbles_bounded(key);
        let leaf = spec_leaf_node(nibbles, value);
        lemma_list_len(seq![leaf]);
        assert(seq![leaf][0] == leaf);
        lemma_list_len(seq![spec_leaf_path(nibbles), value]);
        law_list_roundtrip(seq![leaf]);
        let index_bytes = be_fixed(other as nat, 8);
        assert(index_bytes.len() == 8) by {
            lemma_be_fixed_len(other as nat, 8);
        }
        law_be_u64_of_be_fixed(other);
        let inputs = root + index_bytes;
        assert(inputs.take(32) =~= root);
        assert(inputs.subrange(32, 40) =~= index_bytes);
        if nibbles == spec_nibbles(other_key) {
            lemma_nibbles_equal(key, other_key);
            assert(other_key.take(key.len() as int) =~= other_key);
            lemma_index_encoding_prefix_free(tx_index, other);
        }
        lemma_single_leaf_walk_elsewhere(
            nibbles,
            value,
            root,
            spec_nibbles(other_key),
            Dialect::Receipt,
        );
    }
}

/// Recording a dependency leaves the dependencies of other verifiers as they were.
pub proof fn law_dependency_is_local(
    before: CompositionGraph,
    after: CompositionGraph,
    verifier: Seq<char>,
    depends_on: Seq<char>,
    other: Seq<char>,
)
    requires
        after.dependencies() == before.dependencies().insert(
            verifier,
            (if before.dependencies().contains_key(verifier) {
                before.dependencies()[verifier]
            } else {
                Seq::empty()
            }).push(depends_on),
        ),
        other != verifier,
    ensures
        after.dependencies().contains_key(other) == before.dependencies().contains_key(other),
        after.dependencies().contains_key(other) ==> after.dependencies()[other]
            == before.dependencies()[other],
{
}

/// A registered verifier is found under its proof type, with the metadata it
/// was registered with, and the other proof types are found as before.
pub proof fn law_registered_verifier_is_found(
    before: VerifierRegistry,
    after: VerifierRegistry,
    metadata: VerifierMetadata,
    other: Seq<char>,
)
    requires
        after.verifiers() == before.verifiers().insert(metadata.proof_type_id@, metadata),
    ensures
        after.verifiers().contains_key(metadata.proof_type_id@),
        after.verifiers()[metadata.proof_type_id@] == metadata,
        other != metadata.proof_type_id@ ==> after.verifiers().contains_key(other)
            == before.verifiers().contains_key(other) && (after.verifiers().contains_key(other)
            ==> after.verifiers()[other] == before.verifiers()[other]),
{
}

/// A registered verifier is listed last under its curve and under its scheme,
/// where these are not empty, after the proof types listed there before.
pub proof fn law_registered_verifier_is_indexed(
    before: VerifierRegistry,
    after: VerifierRegistry,
    metadata: VerifierMetadata,
)
    requires
        forall|c: Seq<char>, v: Seq<char>| #[trigger]
            after.capability(c, v) == indexed_under(
                indexed_under(
                    before.capability(c, v),
                    c,
                    v,
                    "curve"@,
                    metadata.curve@,
                    metadata.proof_type_id@,
                ),
                c,
                v,
                "scheme"@,
                metadata.scheme@,
                metadata.proof_type_id@,
            ),
    ensures
        metadata.curve@.len() > 0 ==> after.capability("curve"@, metadata.curve@) == before.capability(
            "curve"@,
            metadata.curve@,
        ).push(metadata.proof_type_id@),
        metadata.scheme@.len() > 0 ==> after.capability("scheme"@, metadata.scheme@)
            == before.capability("scheme"@, metadata.scheme@).push(metadata.proof_type_id@),
{
    reveal_strlit("curve");
    reveal_strlit("scheme");
    assert("curve"@ != "scheme"@) by {
        assert("curve"@[0] != "scheme"@[0]);
    }
    assert(after.capability("curve"@, metadata.curve@) == indexed_under(
        indexed_under(
            before.capability("curve"@, metadata.curve@),
            "curve"@,
            metadata.curve@,
            "curve"@,
            metadata.curve@,
            metadata.proof_type_id@,
        ),
        "curve"@,
        metadata.curve@,
        "scheme"@,
        metadata.scheme@,
        metadata.proof_type_id@,
    ));
    assert(after.capability("scheme"@, metadata.scheme@) == indexed_under(
        indexed_under(
            before.capability("scheme"@, metadata.scheme@),
            "scheme"@,
            metadata.scheme@,
            "curve"@,
            metadata.curve@,
            metadata.proof_type_id@,
        ),
        "scheme"@,
        metadata.scheme@,
        "scheme"@,
        metadata.scheme@,
        metadata.proof_type_id@,
    ));
}

/// `n` NUL characters.
pub open spec fn nul_chars(n: nat) -> Seq<char> {
    Seq::new(n, |_i: int| '\0')
}

/// `n` zero bytes.
pub open spec fn zero_bytes(n: nat) -> Seq<u8> {
    Seq::new(n, |_i: int| 0u8)
}

/// The UTF-8 encoding of a concatenation is the concatenation of the encodings.
proof fn lemma_encode_utf8_concat(a: Seq<char>, b: Seq<char>)
    ensures
        encode_utf8(a + b) == encode_utf8(a) + encode_utf8(b),
    decreases a.len(),
{
    if a.len() == 0 {
        assert(a + b =~= b);
        assert(encode_utf8(a) + encode_utf8(b) =~= encode_utf8(b));
    } else {
        lemma_encode_utf8_concat(a.drop_first(), b);
        assert((a + b)[0] == a[0]);
        assert((a + b).drop_first() =~= a.drop_first() + b);
        assert(encode_utf8(a + b) =~= encode_utf8(a) + encode_utf8(b));
    }
}

/// NUL characters are encoded as zero bytes.
proof fn lemma_encode_nuls(n: nat)
    ensures
        encode_utf8(nul_chars(n)) == zero_bytes(n),
    decreases n,
{
    if n > 0 {
        lemma_encode_nuls((n - 1) as nat);
        assert(nul_chars(n).drop_first() =~= nul_chars((n - 1) as nat));
        assert(nul_chars(n)[0] == '\0');
        assert(('\0' as u32) == 0);
        assert((0u32 & 0x7Fu32) as u8 == 0u8) by (bit_vector);
        assert(vstd::utf8::encode_scalar(0u32) =~= seq![0u8]);
        assert(encode_utf8(nul_chars(n)) =~= zero_bytes(n));
    } else {
        assert(encode_utf8(nul_chars(n)) =~= zero_bytes(n));
    }
}

/// Removing the trailing NULs of a text that does not end with one, followed
/// by NULs, gives the text.
proof fn lemma_strip_nuls(m: Seq<char>, n: nat)
    requires
        m.len() == 0 || m.last() != '\0',
    ensures
        strip_trailing_nul(m + nul_chars(n)) == m,
    decreases n,
{
    if n > 0 {
        lemma_strip_nuls(m, (n - 1) as nat);
        assert((m + nul_chars(n)).drop_last() =~= m + nul_chars((n - 1) as nat));
    } else {
        assert(m + nul_chars(n) =~= m);
    }
}

/// A verifier's message written into a zeroed error buffer that can hold it
/// reads back, on the host, as the message trimmed (or as the stock message
/// when nothing is left), with the status code's verdict.
pub proof fn law_message_reads_back(code: u32, message: Seq<char>, buf_len: nat)
    requires
        encode_utf8(message).len() <= buf_len,
        message.len() == 0 || message.last() != '\0',
        code != VERIFY_VALID,
    ensures
        spec_from_code(code, overwrite_front(zero_bytes(buf_len), encode_utf8(message))) == (if code
            == VERIFY_INVALID {
            (
                VERIFY_INVALID,
                if trim_whitespace(message).len() == 0 {
                    "proof verification failed"@
                } else {
                    trim_whitespace(message)
                },
            )
        } else {
            (
                VERIFY_ERROR,
                if trim_whitespace(message).len() == 0 {
                    "unknown verification error"@
                } else {
                    trim_whitespace(message)
                },
            )
        }),
{
    let enc = encode_utf8(message);
    let k = (buf_len - enc.len()) as nat;
    let written = overwrite_front(zero_bytes(buf_len), enc);
    assert(written =~= enc + zero_bytes(k));
    lemma_encode_nuls(k);
    lemma_encode_utf8_concat(message, nul_chars(k));
    vstd::utf8::encode_utf8_valid_utf8(message + nul_chars(k));
    vstd::utf8::encode_utf8_decode_utf8(message + nul_chars(k));
    assert(valid_utf8(written));
    assert(decode_utf8(written) == message + nul_chars(k));
    lemma_strip_nuls(message, k);
}

/// Zero in `w` bytes is `w` zero bytes.
proof fn lemma_be_fixed_zero(w: nat)
    ensures
        be_fixed(0, w) == zero_bytes(w),
    decreases w,
{
    if w > 0 {
        lemma_be_fixed_zero((w - 1) as nat);
        assert(be_fixed(0, w) =~= zero_bytes(w));
    } else {
        assert(be_fixed(0, w) =~= zero_bytes(w));
    }
}

/// A number below 256^w, in `w` bytes, is zero bytes followed by its minimal bytes.
proof fn lemma_be_fixed_split(n: nat, w: nat)
    requires
        n < pow256(w),
    ensures
        be_minimal(n).len() <= w,
        be_fixed(n, w) == zero_bytes((w - be_minimal(n).len()) as nat) + be_minimal(n),
    decreases w,
{
    if n == 0 {
        lemma_be_fixed_zero(w);
        assert(be_fixed(n, w) =~= zero_bytes(w) + be_minimal(n));
    } else {
        assert(w > 0);
        let p = pow256((w - 1) as nat);
        assert(n / 256 < p) by (nonlinear_arith)
            requires
                n < 256 * p,
        ;
        lemma_be_fixed_split(n / 256, (w - 1) as nat);
        let m = be_minimal(n / 256).len();
        assert(be_fixed(n, w) =~= zero_bytes((w - 1 - m) as nat) + be_minimal(n / 256).push(
            (n % 256) as u8,
        ));
    }
}

/// The minimal bytes of a positive number start with a non-zero byte.
proof fn lemma_be_minimal_leading(n: nat)
    requires
        n > 0,
    ensures
        be_minimal(n).len() > 0,
        be_minimal(n)[0] != 0,
    decreases n,
{
    if n / 256 == 0 {
        assert(be_minimal(n / 256).len() == 0);
        assert(be_minimal(n)[0] == (n % 256) as u8);
    } else {
        lemma_be_minimal_leading(n / 256);
        assert(be_minimal(n)[0] == be_minimal(n / 256)[0]);
    }
}

/// After `k` zero bytes, the first non-zero byte is the first of `s`.
proof fn lemma_first_nonzero_after_zeros(k: nat, s: Seq<u8>)
    requires
        s.len() > 0,
        s[0] != 0,
    ensures
        first_nonzero(zero_bytes(k) + s) == k,
    decreases k,
{
    if k == 0 {
        assert(zero_bytes(k) + s =~= s);
    } else {
        lemma_first_nonzero_after_zeros((k - 1) as nat, s);
        let data = zero_bytes(k) + s;
        assert(data[0] == 0);
        assert(data.drop_first() =~= zero_bytes((k - 1) as nat) + s);
    }
}

/// The encoding of a `w`-byte number with its leading zero bytes dropped is the
/// RLP encoding of its minimal big-endian bytes.
pub proof fn law_number_item_is_minimal(n: nat, w: nat)
    requires
        n < pow256(w),
    ensures
        spec_be_number_item(n, w) == spec_rlp_item(be_minimal(n)),
{
    if n == 0 {
        assert(spec_rlp_item(be_minimal(n)) =~= seq![0x80u8]);
    } else {
        lemma_be_fixed_split(n, w);
        lemma_be_minimal_leading(n);
        let k = (w - be_minimal(n).len()) as nat;
        lemma_first_nonzero_after_zeros(k, be_minimal(n));
        assert((zero_bytes(k) + be_minimal(n)).skip(k as int) =~= be_minimal(n));
    }
}

/// An account nonce is encoded as `rlp_u64` encodes the number.
pub proof fn law_nonce_encoding_is_rlp_u64(n: u64)
    ensures
        spec_be_number_item(n as nat, 8) == spec_rlp_u64(n),
{
    reveal_with_fuel(pow256, 9);
    law_number_item_is_minimal(n as nat, 8);
    if n == 0 {
        assert(spec_rlp_item(be_minimal(0)) =~= seq![0x80u8]);
    }
}

/// An account balance is encoded as the RLP string of its minimal big-endian bytes.
pub proof fn law_balance_encoding_is_minimal(b: u128)
    ensures
        spec_be_number_item(b as nat, 16) == spec_rlp_item(be_minimal(b as nat)),
{
    reveal_with_fuel(pow256, 17);
    law_number_item_is_minimal(b as nat, 16);
}

/// A message that neither starts nor ends with white space (nor ends with a
/// NUL), written into a zeroed error buffer that can hold it, reads back on the
/// host as exactly that message, with the status code's verdict.
pub proof fn law_plain_message_reads_back(code: u32, message: Seq<char>, buf_len: nat)
    requires
        encode_utf8(message).len() <= buf_len,
        message.len() > 0,
        message.last() != '\0',
        !is_white_space(message[0]),
        !is_white_space(message.last()),
        code != VERIFY_VALID,
    ensures
        spec_from_code(code, overwrite_front(zero_bytes(buf_len), encode_utf8(message))) == (if code
            == VERIFY_INVALID {
            VERIFY_INVALID
        } else {
            VERIFY_ERROR
        }, message),
{
    law_message_reads_back(code, message, buf_len);
    assert(trim_whitespace(message) == message);
}

/// Whether `m` offers the capability `value` in `category`: its curve (for
/// "curve") or its scheme (for "scheme") is `value`, and `value` is not empty.
pub open spec fn offers(m: VerifierMetadata, category: Seq<char>, value: Seq<char>) -> bool {
    &&& value.len() > 0
    &&& (category == "curve"@ && m.curve@ == value) || (category == "scheme"@ && m.scheme@ == value)
}

/// The proof types listed under a capability once `ms` have been registered,
/// in order, into an empty registry: for each registration, its proof type
/// when it offers the capability.
pub open spec fn listed_after(ms: Seq<VerifierMetadata>, category: Seq<char>, value: Seq<char>) -> Seq<
    Seq<char>,
>
    decreases ms.len(),
{
    if ms.len() == 0 {
        Seq::empty()
    } else {
        let prev = listed_after(ms.drop_last(), category, value);
        if offers(ms.last(), category, value) {
            prev.push(ms.last().proof_type_id@)
        } else {
            prev
        }
    }
}

/// The registered verifiers once `ms` have been registered, in order, into an
/// empty registry: each proof type with its last registration.
pub open spec fn registered_after(ms: Seq<VerifierMetadata>) -> Map<Seq<char>, VerifierMetadata>
    decreases ms.len(),
{
    if ms.len() == 0 {
        Map::empty()
    } else {
        registered_after(ms.drop_last()).insert(ms.last().proof_type_id@, ms.last())
    }
}

/// Whether one of `ms` has the proof type `id` and offers the capability.
pub open spec fn offered_by(
    ms: Seq<VerifierMetadata>,
    category: Seq<char>,
    value: Seq<char>,
    id: Seq<char>,
) -> bool {
    exists|j: int| 0 <= j < ms.len() && ms[j].proof_type_id@ == id && offers(ms[j], category, value)
}

/// What one registration adds under a capability.
proof fn lemma_register_step(
    prev: Seq<Seq<char>>,
    category: Seq<char>,
    value: Seq<char>,
    m: VerifierMetadata,
)
    ensures
        indexed_under(
            indexed_under(prev, category, value, "curve"@, m.curve@, m.proof_type_id@),
            category,
            value,
            "scheme"@,
            m.scheme@,
            m.proof_type_id@,
        ) == if offers(m, category, value) {
            prev.push(m.proof_type_id@)
        } else {
            prev
        },
{
    reveal_strlit("curve");
    reveal_strlit("scheme");
    assert("curve"@ != "scheme"@) by {
        assert("curve"@[0] != "scheme"@[0]);
    }
}

/// With distinct proof types, the list under a capability holds each proof
/// type that offers it, once, and nothing else.
proof fn lemma_listed_after(ms: Seq<VerifierMetadata>, category: Seq<char>, value: Seq<char>)
    requires
        forall|i: int, j: int|
            0 <= i < j < ms.len() ==> ms[i].proof_type_id@ != ms[j].proof_type_id@,
    ensures
        forall|k: int|
            0 <= k < listed_after(ms, category, value).len() ==> offered_by(
                ms,
                category,
                value,
                #[trigger] listed_after(ms, category, value)[k],
            ),
        forall|j: int|
            0 <= j < ms.len() && offers(#[trigger] ms[j], category, value) ==> listed_after(
                ms,
                category,
                value,
            ).contains(ms[j].proof_type_id@),
        listed_after(ms, category, value).no_duplicates(),
    decreases ms.len(),
{
    if ms.len() > 0 {
        let front = ms.drop_last();
        lemma_listed_after(front, category, value);
        let prev = listed_after(front, category, value);
        let cur = listed_after(ms, category, value);
        let n = ms.len() - 1;
        assert forall|k: int| 0 <= k < cur.len() implies offered_by(
            ms,
            category,
            value,
            #[trigger] cur[k],
        ) by {
            if k < prev.len() {
                assert(cur[k] == prev[k]);
                assert(offered_by(front, category, value, prev[k]));
                let j = choose|j: int|
                    0 <= j < front.len() && front[j].proof_type_id@ == prev[k] && offers(
                        front[j],
                        category,
                        value,
                    );
                assert(ms[j] == front[j]);
            } else {
                assert(cur[k] == ms.last().proof_type_id@);
                assert(ms[n] == ms.last());
            }
        }
        assert forall|j: int| 0 <= j < ms.len() && offers(#[trigger] ms[j], category, value) implies cur.contains(
            ms[j].proof_type_id@,
        ) by {
            if j < n {
                assert(front[j] == ms[j]);
                let k = choose|k: int| 0 <= k < prev.len() && prev[k] == front[j].proof_type_id@;
                assert(cur[k] == prev[k]);
            } else {
                assert(cur[prev.len() as int] == ms.last().proof_type_id@);
            }
        }
        if offers(ms.last(), category, value) {
            assert forall|k: int| 0 <= k < prev.len() implies prev[k] != ms.last().proof_type_id@ by {
                assert(offered_by(front, category, value, prev[k]));
                let j = choose|j: int|
                    0 <= j < front.len() && front[j].proof_type_id@ == prev[k] && offers(
                        front[j],
                        category,
                        value,
                    );
                assert(front[j] == ms[j]);
            }
            assert forall|a: int, b: int| 0 <= a < b < cur.len() implies cur[a] != cur[b] by {
                if b == prev.len() {
                    assert(cur[a] == prev[a]);
                } else {
                    assert(cur[a] == prev[a] && cur[b] == prev[b]);
                }
            }
        }
    }
}

/// With distinct proof types, each registration is found under its proof
/// type, and nothing else is registered.
proof fn lemma_registered_after(ms: Seq<VerifierMetadata>)
    requires
        forall|i: int, j: int|
            0 <= i < j < ms.len() ==> ms[i].proof_type_id@ != ms[j].proof_type_id@,
    ensures
        forall|j: int|
            0 <= j < ms.len() ==> registered_after(ms).contains_key(#[trigger] ms[j].proof_type_id@)
                && registered_after(ms)[ms[j].proof_type_id@] == ms[j],
        forall|id: Seq<char>| #[trigger]
            registered_after(ms).contains_key(id) ==> exists|j: int|
                0 <= j < ms.len() && ms[j].proof_type_id@ == id,
    decreases ms.len(),
{
    if ms.len() > 0 {
        let front = ms.drop_last();
        lemma_registered_after(front);
        let n = ms.len() - 1;
        assert forall|j: int| 0 <= j < ms.len() implies registered_after(ms).contains_key(
            #[trigger] ms[j].proof_type_id@,
        ) && registered_after(ms)[ms[j].proof_type_id@] == ms[j] by {
            if j < n {
                assert(front[j] == ms[j]);
                assert(ms[j].proof_type_id@ != ms[n].proof_type_id@);
            }
        }
        assert forall|id: Seq<char>| #[trigger] registered_after(ms).contains_key(id) implies exists|j: int|
            0 <= j < ms.len() && ms[j].proof_type_id@ == id by {
            if id != ms.last().proof_type_id@ {
                assert(registered_after(front).contains_key(id));
                let j = choose|j: int| 0 <= j < front.len() && front[j].proof_type_id@ == id;
                assert(ms[j] == front[j]);
            } else {
                assert(ms[n].proof_type_id@ == id);
            }
        }
    }
}

/// Registering `ms` one after the other into an empty registry (`states` are
/// the registry before and after each registration) lists under every
/// capability the proof types of the registrations that offer it, in order.
/// When no proof type is registered twice, the list under a capability holds
/// each registered verifier that offers it, once, and only such verifiers.
pub proof fn law_capability_index_of_registrations(
    ms: Seq<VerifierMetadata>,
    states: Seq<VerifierRegistry>,
)
    requires
        states.len() == ms.len() + 1,
        states[0].verifiers() == Map::<Seq<char>, VerifierMetadata>::empty(),
        forall|c: Seq<char>, v: Seq<char>| #[trigger]
            states[0].capability(c, v) == Seq::<Seq<char>>::empty(),
        forall|i: int|
            #![trigger states[i + 1]]
            0 <= i < ms.len() ==> states[i + 1].verifiers() == states[i].verifiers().insert(
                ms[i].proof_type_id@,
                ms[i],
            ) && forall|c: Seq<char>, v: Seq<char>| #[trigger]
                states[i + 1].capability(c, v) == indexed_under(
                    indexed_under(
                        states[i].capability(c, v),
                        c,
                        v,
                        "curve"@,
                        ms[i].curve@,
                        ms[i].proof_type_id@,
                    ),
                    c,
                    v,
                    "scheme"@,
                    ms[i].scheme@,
                    ms[i].proof_type_id@,
                ),
    ensures
        states.last().verifiers() == registered_after(ms),
        forall|c: Seq<char>, v: Seq<char>| #[trigger]
            states.last().capability(c, v) == listed_after(ms, c, v),
        (forall|i: int, j: int|
            0 <= i < j < ms.len() ==> ms[i].proof_type_id@ != ms[j].proof_type_id@) ==> forall|
            c: Seq<char>,
            v: Seq<char>,
        |
            {
                &&& (#[trigger] states.last().capability(c, v)).no_duplicates()
                &&& forall|k: int|
                    0 <= k < states.last().capability(c, v).len() ==> states.last().verifiers().contains_key(
                        #[trigger] states.last().capability(c, v)[k],
                    ) && offers(
                        states.last().verifiers()[states.last().capability(c, v)[k]],
                        c,
                        v,
                    )
                &&& forall|id: Seq<char>|
                    states.last().verifiers().contains_key(id) && offers(
                        #[trigger] states.last().verifiers()[id],
                        c,
                        v,
                    ) ==> states.last().capability(c, v).contains(id)
            },
{
    lemma_states_follow(ms, states, ms.len() as int);
    assert(ms.take(ms.len() as int) =~= ms);
    if forall|i: int, j: int|
        0 <= i < j < ms.len() ==> ms[i].proof_type_id@ != ms[j].proof_type_id@ {
        lemma_registered_after(ms);
        let r = states.last();
        assert forall|c: Seq<char>, v: Seq<char>| {
            &&& (#[trigger] r.capability(c, v)).no_duplicates()
            &&& forall|k: int|
                0 <= k < r.capability(c, v).len() ==> r.verifiers().contains_key(
                    #[trigger] r.capability(c, v)[k],
                ) && offers(r.verifiers()[r.capability(c, v)[k]], c, v)
            &&& forall|id: Seq<char>|
                r.verifiers().contains_key(id) && offers(#[trigger] r.verifiers()[id], c, v)
                    ==> r.capability(c, v).contains(id)
        } by {
            lemma_listed_after(ms, c, v);
            let cap = listed_after(ms, c, v);
            assert forall|k: int| 0 <= k < cap.len() implies r.verifiers().contains_key(
                #[trigger] cap[k],
            ) && offers(r.verifiers()[cap[k]], c, v) by {
                assert(offered_by(ms, c, v, cap[k]));
                let j = choose|j: int|
                    0 <= j < ms.len() && ms[j].proof_type_id@ == cap[k] && offers(ms[j], c, v);
                assert(registered_after(ms)[ms[j].proof_type_id@] == ms[j]);
            }
            assert forall|id: Seq<char>|
                r.verifiers().contains_key(id) && offers(#[trigger] r.verifiers()[id], c, v)
                    implies cap.contains(id) by {
                let j = choose|j: int| 0 <= j < ms.len() && ms[j].proof_type_id@ == id;
                assert(registered_after(ms)[ms[j].proof_type_id@] == ms[j]);
                assert(offers(ms[j], c, v));
            }
        }
    }
}

/// The registry after the first `n` registrations holds what registering them
/// into an empty registry gives.
proof fn lemma_states_follow(ms: Seq<VerifierMetadata>, states: Seq<VerifierRegistry>, n: int)
    requires
        states.len() == ms.len() + 1,
        0 <= n <= ms.len(),
        states[0].verifiers() == Map::<Seq<char>, VerifierMetadata>::empty(),
        forall|c: Seq<char>, v: Seq<char>| #[trigger]
            states[0].capability(c, v) == Seq::<Seq<char>>::empty(),
        forall|i: int|
            #![trigger states[i + 1]]
            0 <= i < ms.len() ==> states[i + 1].verifiers() == states[i].verifiers().insert(
                ms[i].proof_type_id@,
                ms[i],
            ) && forall|c: Seq<char>, v: Seq<char>| #[trigger]
                states[i + 1].capability(c, v) == indexed_under(
                    indexed_under(
                        states[i].capability(c, v),
                        c,
                        v,
                        "curve"@,
                        ms[i].curve@,
                        ms[i].proof_type_id@,
                    ),
                    c,
                    v,
                    "scheme"@,
                    ms[i].scheme@,
                    ms[i].proof_type_id@,
                ),
    ensures
        states[n].verifiers() == registered_after(ms.take(n)),
        forall|c: Seq<char>, v: Seq<char>| #[trigger]
            states[n].capability(c, v) == listed_after(ms.take(n), c, v),
    decreases n,
{
    if n == 0 {
        assert(ms.take(0) =~= Seq::<VerifierMetadata>::empty());
    } else {
        lemma_states_follow(ms, states, n - 1);
        let i = n - 1;
        assert(ms.take(n).drop_last() =~= ms.take(i));
        assert(ms.take(n).last() == ms[i]);
        assert(states[i + 1].verifiers() == states[i].verifiers().insert(ms[i].proof_type_id@, ms[i]));
        assert forall|c: Seq<char>, v: Seq<char>| #[trigger]
            states[n].capability(c, v) == listed_after(ms.take(n), c, v) by {
            lemma_register_step(states[i].capability(c, v), c, v, ms[i]);
            assert(states[i + 1].capability(c, v) == indexed_under(
                indexed_under(
                    states[i].capability(c, v),
                    c,
                    v,
                    "curve"@,
                    ms[i].curve@,
                    ms[i].proof_type_id@,
                ),
                c,
                v,
                "scheme"@,
                ms[i].scheme@,
                ms[i].proof_type_id@,
            ));
        }
    }
}

/// Public parameters are found only where they were stored: storing a
/// verification key leaves every lookup of public parameters as it was.
pub proof fn law_key_write_leaves_params(
    before: InMemoryStorage,
    after: InMemoryStorage,
    key_id: Seq<char>,
    key: Seq<u8>,
    id: Seq<char>,
)
    requires
        after.verification_keys() == before.verification_keys().insert(key_id, key),
        after.public_params() == before.public_params(),
    ensures
        after.public_params_result(id) == before.public_params_result(id),
{
}

/// Verification keys are found only where they were stored: storing public
/// parameters leaves every lookup of verification keys as it was.
pub proof fn law_params_write_leaves_keys(
    before: InMemoryStorage,
    after: InMemoryStorage,
    params_id: Seq<char>,
    params: Seq<u8>,
    id: Seq<char>,
)
    requires
        after.public_params() == before.public_params().insert(params_id, params),
        after.verification_keys() == before.verification_keys(),
    ensures
        after.verification_key_result(id) == before.verification_key_result(id),
{
}

/// A lookup succeeds only for what was stored under that id in its own kind:
/// found public parameters are the ones held under the id, found keys likewise,
/// and storage holding no public parameters (or no keys) answers every lookup
/// of them with an error.
pub proof fn law_lookups_read_their_own_store(s: InMemoryStorage, id: Seq<char>)
    ensures
        s.public_params_result(id) is Ok ==> s.public_params().contains_key(id)
            && s.public_params_result(id) == Ok::<Seq<u8>, Seq<char>>(s.public_params()[id]),
        s.verification_key_result(id) is Ok ==> s.verification_keys().contains_key(id)
            && s.verification_key_result(id) == Ok::<Seq<u8>, Seq<char>>(
            s.verification_keys()[id],
        ),
        s.public_params().dom().len() == 0 && s.public_params().dom().finite()
            ==> s.public_params_result(id) is Err,
        s.verification_keys().dom().len() == 0 && s.verification_keys().dom().finite()
            ==> s.verification_key_result(id) is Err,
{
    if s.public_params().dom().len() == 0 && s.public_params().dom().finite() {
        if s.public_params().contains_key(id) {
            vstd::set_lib::lemma_set_empty_equivalency_len(s.public_params().dom());
        }
    }
    if s.verification_keys().dom().len() == 0 && s.verification_keys().dom().finite() {
        if s.verification_keys().contains_key(id) {
            vstd::set_lib::lemma_set_empty_equivalency_len(s.verification_keys().dom());
        }
    }
}

/// A receipt proof made of a single leaf, checked with expected bytes after
/// the index, is accepted exactly when those bytes are empty, longer than the
/// receipt, or the receipt begins with each of them.
pub proof fn law_receipt_expected_bytes(
    tx_index: u64,
    value: Seq<u8>,
    root: Seq<u8>,
    expected: Seq<u8>,
)
    requires
        root == keccak256_digest(
            spec_leaf_node(spec_nibbles(spec_rlp_encode_u64(tx_index)), value),
        ),
        root.len() == 32,
        spec_single_node_proof(
            spec_leaf_node(spec_nibbles(spec_rlp_encode_u64(tx_index)), value),
        ).len() <= usize::MAX,
        spec_item(value) is Some,
    ensures
        spec_verify_receipt_proof(
            spec_single_node_proof(
                spec_leaf_node(spec_nibbles(spec_rlp_encode_u64(tx_index)), value),
            ),
            root + be_fixed(tx_index as nat, 8) + expected,
        ) is Ok <==> (expected.len() == 0 || expected.len() > value.len() || forall|i: int|
            0 <= i < expected.len() ==> expected[i] == value[i]),
{
    let key = spec_rlp_encode_u64(tx_index);
    let nibbles = spec_nibbles(key);
    lemma_nibbles_bounded(key);
    let leaf = spec_leaf_node(nibbles, value);
    lemma_list_len(seq![leaf]);
    assert(seq![leaf][0] == leaf);
    lemma_list_len(seq![spec_leaf_path(nibbles), value]);
    law_list_roundtrip(seq![leaf]);
    lemma_single_leaf_walk(nibbles, value, root, Dialect::Receipt);
    let index_bytes = be_fixed(tx_index as nat, 8);
    assert(index_bytes.len() == 8) by {
        lemma_be_fixed_len(tx_index as nat, 8);
    }
    law_be_u64_of_be_fixed(tx_index);
    let inputs = root + index_bytes + expected;
    assert(inputs.take(32) =~= root);
    assert(inputs.subrange(32, 40) =~= index_bytes);
    assert(inputs.skip(40) =~= expected);
    if expected.len() > 0 && expected.len() <= value.len() {
        if forall|i: int| 0 <= i < expected.len() ==> expected[i] == value[i] {
            assert(expected =~= value.take(expected.len() as int));
        } else {
            let i = choose|i: int| 0 <= i < expected.len() && expected[i] != value[i];
            assert(value.take(expected.len() as int)[i] == value[i]);
            assert(expected != value.take(expected.len() as int));
        }
    }
}

/// A branch node whose child at `nibble` is `child` and whose other slots,
/// the value slot included, are empty.
pub open spec fn spec_branch_node(nibble: u8, child: Seq<u8>) -> Seq<u8> {
    spec_rlp_list(branch_slots(nibble, child))
}

/// The seventeen slots of such a branch node.
pub open spec fn branch_slots(nibble: u8, child: Seq<u8>) -> Seq<Seq<u8>> {
    Seq::new(17, |i: int| if i == nibble { child } else { Seq::<u8>::empty() })
}

/// A walk through a branch continues at the child the key's next nibble
/// selects, with that nibble used up: a proof made of a branch, whose hash is
/// the state root, and of a leaf hashed into the branch's slot for the key's
/// first nibble, whose path is the rest of the key's nibbles, is accepted for
/// the key.
pub proof fn law_branch_then_leaf_state_proof(key: Seq<u8>, value: Seq<u8>, root: Seq<u8>)
    requires
        key.len() > 0,
        keccak256_digest(spec_leaf_node(spec_nibbles(key).skip(1), value)).len() == 32,
        root == keccak256_digest(
            spec_branch_node(
                spec_nibbles(key)[0],
                keccak256_digest(spec_leaf_node(spec_nibbles(key).skip(1), value)),
            ),
        ),
        root.len() == 32,
        root != keccak256_digest(spec_leaf_node(spec_nibbles(key).skip(1), value)),
        spec_rlp_list(
            seq![
                spec_branch_node(
                    spec_nibbles(key)[0],
                    keccak256_digest(spec_leaf_node(spec_nibbles(key).skip(1), value)),
                ),
                spec_leaf_node(spec_nibbles(key).skip(1), value),
            ],
        ).len() <= usize::MAX,
    ensures
        spec_verify_state_proof(
            spec_rlp_list(
                seq![
                    spec_branch_node(
                        spec_nibbles(key)[0],
                        keccak256_digest(spec_leaf_node(spec_nibbles(key).skip(1), value)),
                    ),
                    spec_leaf_node(spec_nibbles(key).skip(1), value),
                ],
            ),
            root + key,
        ) == Ok::<(), Seq<char>>(()),
{
    let n = spec_nibbles(key);
    lemma_nibbles_bounded(key);
    let rest = n.skip(1);
    assert(all_nibbles(rest)) by {
        assert forall|i: int| 0 <= i < rest.len() implies #[trigger] rest[i] < 16 by {
            assert(rest[i] == n[i + 1]);
        }
    }
    let leaf = spec_leaf_node(rest, value);
    let h = keccak256_digest(leaf);
    let slots = branch_slots(n[0], h);
    let branch = spec_branch_node(n[0], h);
    let proof = spec_rlp_list(seq![branch, leaf]);
    lemma_list_len(seq![branch, leaf]);
    assert(seq![branch, leaf][0] == branch && seq![branch, leaf][1] == leaf);
    law_list_roundtrip(seq![branch, leaf]);
    assert(branch == spec_rlp_list(slots));
    assert(branch.len() <= proof.len());
    lemma_list_len(slots);
    law_list_roundtrip(slots);
    let path = spec_leaf_path(rest);
    lemma_list_len(seq![path, value]);
    law_list_roundtrip(seq![path, value]);
    law_leaf_path_roundtrip(rest);
    let nodes = hashed_nodes(seq![branch, leaf]);
    assert(nodes[0] == (root, branch));
    assert(nodes[1] == (h, leaf));
    assert(spec_lookup(nodes, root) == Some(branch));
    assert(nodes.len() == 2);
    assert(nodes.drop_first().len() == 1);
    assert(nodes.drop_first()[0] == (h, leaf));
    assert(spec_lookup(nodes.drop_first(), h) == Some(leaf));
    assert(spec_lookup(nodes, h) == Some(leaf));
    let fuel = walk_fuel(nodes.len(), n.len());
    assert(fuel >= 2);
    assert(slots[n[0] as int] == h);
    assert(!is_empty_slot(h));
    assert(n.skip(1) =~= rest);
    assert(rest.take(rest.len() as int) =~= rest);
    assert(spec_walk(nodes, h, n, 1, (fuel - 1) as nat, Dialect::Account) == Ok::<
        Seq<u8>,
        crate::trie::WalkError,
    >(value));
    assert(spec_walk(nodes, root, n, 0, fuel, Dialect::Account) == Ok::<
        Seq<u8>,
        crate::trie::WalkError,
    >(value));
    let inputs = root + key;
    assert(inputs.take(32) =~= root);
    assert(inputs.skip(32) =~= key);
}

} // verus!
