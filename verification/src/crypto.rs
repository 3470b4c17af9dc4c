//! The cryptographic primitives the host offers its verifiers.
use vstd::prelude::*;

use crate::abi::{CURVE_BN254, SIG_BLS};
use crate::curves::{
    bls_signature_is_valid, bls_verify, bn254_g1_is_valid, bn254_g1_valid, bn254_g2_is_valid,
    bn254_g2_valid, bn254_pairing_is_one, bn254_pairing_product_is_one,
};
use crate::hashing::{keccak256, keccak256_digest, sha256, sha256_digest};
use crate::keyed::str_eq;
use crate::rlp::byte_views;
use vstd::slice::slice_to_vec;
use vstd::utf8::encode_utf8;

verus! {

/// Hashing, signature checks and pairing checks, as a host provides them.
pub trait CryptoProvider: Send + Sync {
    /// The digest `hash` gives for an algorithm name and data.
    spec fn hash_result(&self, algorithm: Seq<char>, data: Seq<u8>) -> Seq<u8>;

    /// Whether `verify_signature` accepts.
    spec fn signature_result(
        &self,
        scheme: u32,
        message: Seq<u8>,
        signature: Seq<u8>,
        public_key: Seq<u8>,
    ) -> bool;

    /// Whether `pairing_check` accepts.
    spec fn pairing_result(&self, curve: u32, pairs: Seq<u8>) -> bool;

    /// The digest of `data` under the named algorithm.
    fn hash(&self, algorithm: &str, data: &[u8]) -> (r: Vec<u8>)
        ensures
            r@ == self.hash_result(algorithm@, data@),
    ;

    /// The Keccak-256 digest of `data`.
    fn keccak256(&self, data: &[u8]) -> (r: [u8; 32])
        ensures
            r@ == self.hash_result("keccak256"@, data@),
    ;

    /// The SHA-256 digest of `data`.
    fn sha256(&self, data: &[u8]) -> (r: [u8; 32])
        ensures
            r@ == self.hash_result("sha256"@, data@),
    ;

    /// Whether `signature` signs `message` under `public_key` in the given scheme.
    fn verify_signature(&self, scheme: u32, message: &[u8], signature: &[u8], public_key: &[u8]) -> (r:
        bool)
        ensures
            r == self.signature_result(scheme, message@, signature@, public_key@),
    ;

    /// Whether the pairing product of the encoded point pairs is the identity.
    fn pairing_check(&self, curve: u32, pairs: &[u8]) -> (r: bool)
        ensures
            r == self.pairing_result(curve, pairs@),
    ;
}

/// Bytes per BN254 pair: a G1 point (64 bytes) then a G2 point (128 bytes).
pub const BN254_PAIR_LEN: usize = 192;

/// The G1 point of pair `i`.
pub open spec fn pair_g1(pairs: Seq<u8>, i: int) -> Seq<u8> {
    pairs.subrange(192 * i, 192 * i + 64)
}

/// The G2 point of pair `i`.
pub open spec fn pair_g2(pairs: Seq<u8>, i: int) -> Seq<u8> {
    pairs.subrange(192 * i + 64, 192 * i + 192)
}

/// Whether `pairs` is a non-empty run of BN254 (G1, G2) pairs, all points
/// valid, whose pairing product is the identity.
pub open spec fn spec_bn254_pairing_check(pairs: Seq<u8>) -> bool {
    let n = pairs.len() / 192;
    &&& pairs.len() > 0
    &&& pairs.len() % 192 == 0
    &&& forall|i: int|
        0 <= i < n ==> bn254_g1_is_valid(#[trigger] pair_g1(pairs, i)) && bn254_g2_is_valid(
            pair_g2(pairs, i),
        )
    &&& bn254_pairing_product_is_one(
        Seq::new(n, |i: int| pair_g1(pairs, i)),
        Seq::new(n, |i: int| pair_g2(pairs, i)),
    )
}

/// The domain separation tag of BLS signatures with proof of possession.
pub open spec fn bls_dst() -> Seq<char> {
    "BLS_SIG_BLS12381G2_XMD:SHA-256_SSWU_RO_POP_"@
}

/// Checks BN254 pairs: reads each pair, rejects an invalid point, and asks
/// whether the pairing product is the identity.
pub fn bn254_pairing_check(pairs: &[u8]) -> (r: bool)
    ensures
        r == spec_bn254_pairing_check(pairs@),
{
    if pairs.len() == 0 || pairs.len() % BN254_PAIR_LEN != 0 {
        return false;
    }
    let n = pairs.len() / BN254_PAIR_LEN;
    assert(pairs@.len() == pairs.len());
    assert(pairs@.len() == 192 * n) by (nonlinear_arith)
        requires
            n == pairs@.len() / 192,
            pairs@.len() % 192 == 0,
    ;
    let mut g1s: Vec<Vec<u8>> = Vec::new();
    let mut g2s: Vec<Vec<u8>> = Vec::new();
    let mut i: usize = 0;
    let mut offset: usize = 0;
    while i < n
        invariant
            n == pairs@.len() / 192,
            pairs@.len() % 192 == 0,
            pairs@.len() == 192 * n,
            pairs@.len() <= usize::MAX,
            i <= n,
            offset == 192 * i,
            g1s@.len() == i,
            g2s@.len() == i,
            forall|j: int| 0 <= j < i ==> #[trigger] g1s@[j]@ == pair_g1(pairs@, j),
            forall|j: int| 0 <= j < i ==> #[trigger] g2s@[j]@ == pair_g2(pairs@, j),
            forall|j: int| 0 <= j < i ==> bn254_g1_is_valid(#[trigger] pair_g1(pairs@, j)),
            forall|j: int| 0 <= j < i ==> bn254_g2_is_valid(#[trigger] pair_g2(pairs@, j)),
        decreases n - i,
    {
        assert(offset + 192 <= pairs@.len());
        let g1 = &pairs[offset..offset + 64];
        let g2 = &pairs[offset + 64..offset + 192];
        assert(g1@ =~= pair_g1(pairs@, i as int));
        assert(g2@ =~= pair_g2(pairs@, i as int));
        if !bn254_g1_valid(g1) || !bn254_g2_valid(g2) {
            assert(!(bn254_g1_is_valid(pair_g1(pairs@, i as int)) && bn254_g2_is_valid(
                pair_g2(pairs@, i as int),
            )));
            return false;
        }
        assert(bn254_g1_is_valid(pair_g1(pairs@, i as int)) && bn254_g2_is_valid(
            pair_g2(pairs@, i as int),
        ));
        g1s.push(slice_to_vec(g1));
        g2s.push(slice_to_vec(g2));
        i = i + 1;
        offset = offset + BN254_PAIR_LEN;
    }
    assert(byte_views(g1s@) =~= Seq::new(n as nat, |i: int| pair_g1(pairs@, i)));
    assert(byte_views(g2s@) =~= Seq::new(n as nat, |i: int| pair_g2(pairs@, i)));
    bn254_pairing_is_one(&g1s, &g2s)
}

/// The host's own primitives: Keccak-256 and SHA-256, BLS signatures with
/// public keys in G1, and BN254 pairing checks.
pub struct DefaultCryptoProvider;

impl CryptoProvider for DefaultCryptoProvider {
    open spec fn hash_result(&self, algorithm: Seq<char>, data: Seq<u8>) -> Seq<u8> {
        if algorithm == "keccak256"@ {
            keccak256_digest(data)
        } else if algorithm == "sha256"@ {
            sha256_digest(data)
        } else {
            Seq::empty()
        }
    }

    open spec fn signature_result(
        &self,
        scheme: u32,
        message: Seq<u8>,
        signature: Seq<u8>,
        public_key: Seq<u8>,
    ) -> bool {
        scheme == SIG_BLS && bls_signature_is_valid(
            message,
            signature,
            public_key,
            encode_utf8(bls_dst()),
        )
    }

    open spec fn pairing_result(&self, curve: u32, pairs: Seq<u8>) -> bool {
        curve == CURVE_BN254 && spec_bn254_pairing_check(pairs)
    }

    fn hash(&self, algorithm: &str, data: &[u8]) -> (r: Vec<u8>) {
        if str_eq(algorithm, "keccak256") {
            let d = keccak256(data);
            slice_to_vec(d.as_slice())
        } else if str_eq(algorithm, "sha256") {
            let d = sha256(data);
            slice_to_vec(d.as_slice())
        } else {
            Vec::new()
        }
    }

    fn keccak256(&self, data: &[u8]) -> (r: [u8; 32]) {
        keccak256(data)
    }

    fn sha256(&self, data: &[u8]) -> (r: [u8; 32]) {
        proof {
            broadcast use vstd::string::group_string_axioms;

            reveal_strlit("sha256");
            reveal_strlit("keccak256");
            assert("sha256"@.len() != "keccak256"@.len());
        }
        sha256(data)
    }

    fn verify_signature(&self, scheme: u32, message: &[u8], signature: &[u8], public_key: &[u8]) -> (r:
        bool) {
        if scheme != SIG_BLS {
            return false;
        }
        let dst = "BLS_SIG_BLS12381G2_XMD:SHA-256_SSWU_RO_POP_";
        bls_verify(message, signature, public_key, dst.as_bytes())
    }

    fn pairing_check(&self, curve: u32, pairs: &[u8]) -> (r: bool) {
        if curve != CURVE_BN254 {
            return false;
        }
        bn254_pairing_check(pairs)
    }
}

/// The G1 points of a run of pairs, read pair by pair from the front.
pub open spec fn g1_points(pairs: Seq<u8>) -> Seq<Seq<u8>>
    decreases pairs.len(),
{
    if pairs.len() < 192 {
        Seq::empty()
    } else {
        seq![pairs.take(64)] + g1_points(pairs.skip(192))
    }
}

/// The G2 points of a run of pairs, read pair by pair from the front.
pub open spec fn g2_points(pairs: Seq<u8>) -> Seq<Seq<u8>>
    decreases pairs.len(),
{
    if pairs.len() < 192 {
        Seq::empty()
    } else {
        seq![pairs.subrange(64, 192)] + g2_points(pairs.skip(192))
    }
}

/// Reading pair by pair finds every pair, at its place.
proof fn lemma_points(pairs: Seq<u8>)
    requires
        pairs.len() % 192 == 0,
    ensures
        g1_points(pairs).len() == pairs.len() / 192,
        g2_points(pairs).len() == pairs.len() / 192,
        g1_points(pairs) == Seq::new(pairs.len() / 192, |i: int| pair_g1(pairs, i)),
        g2_points(pairs) == Seq::new(pairs.len() / 192, |i: int| pair_g2(pairs, i)),
    decreases pairs.len(),
{
    if pairs.len() >= 192 {
        let rest = pairs.skip(192);
        lemma_points(rest);
        let n = pairs.len() / 192;
        assert(rest.len() / 192 + 1 == n);
        assert forall|i: int| 0 <= i < n implies #[trigger] g1_points(pairs)[i] == pair_g1(pairs, i) by {
            if i > 0 {
                assert(g1_points(pairs)[i] == g1_points(rest)[i - 1]);
                assert(pair_g1(rest, i - 1) =~= pair_g1(pairs, i));
            } else {
                assert(pairs.take(64) =~= pair_g1(pairs, 0));
            }
        }
        assert forall|i: int| 0 <= i < n implies #[trigger] g2_points(pairs)[i] == pair_g2(pairs, i) by {
            if i > 0 {
                assert(g2_points(pairs)[i] == g2_points(rest)[i - 1]);
                assert(pair_g2(rest, i - 1) =~= pair_g2(pairs, i));
            } else {
                assert(pairs.subrange(64, 192) =~= pair_g2(pairs, 0));
            }
        }
        assert(g1_points(pairs) =~= Seq::new(n, |i: int| pair_g1(pairs, i)));
        assert(g2_points(pairs) =~= Seq::new(n, |i: int| pair_g2(pairs, i)));
    } else {
        assert(pairs.len() == 0);
        assert(g1_points(pairs) =~= Seq::new(0, |i: int| pair_g1(pairs, i)));
        assert(g2_points(pairs) =~= Seq::new(0, |i: int| pair_g2(pairs, i)));
    }
}

/// The BN254 pairing check takes every pair into account: it accepts exactly a
/// non-empty run of whole pairs whose points, read pair by pair, are all
/// valid and whose pairings, over all the pairs, multiply to the identity.
pub proof fn law_pairing_check_uses_every_pair(pairs: Seq<u8>)
    ensures
        spec_bn254_pairing_check(pairs) == (pairs.len() > 0 && pairs.len() % 192 == 0 && (forall|
            i: int,
        |
            0 <= i < g1_points(pairs).len() ==> bn254_g1_is_valid(#[trigger] g1_points(pairs)[i])
                && bn254_g2_is_valid(g2_points(pairs)[i])) && bn254_pairing_product_is_one(
            g1_points(pairs),
            g2_points(pairs),
        )),
{
    if pairs.len() > 0 && pairs.len() % 192 == 0 {
        lemma_points(pairs);
        let n = pairs.len() / 192;
        if forall|i: int|
            0 <= i < g1_points(pairs).len() ==> bn254_g1_is_valid(#[trigger] g1_points(pairs)[i])
                && bn254_g2_is_valid(g2_points(pairs)[i]) {
            assert forall|i: int| 0 <= i < n implies bn254_g1_is_valid(#[trigger] pair_g1(pairs, i))
                && bn254_g2_is_valid(pair_g2(pairs, i)) by {
                assert(g1_points(pairs)[i] == pair_g1(pairs, i));
            }
        }
        if spec_bn254_pairing_check(pairs) {
            assert forall|i: int|
                0 <= i < g1_points(pairs).len() implies bn254_g1_is_valid(
                #[trigger] g1_points(pairs)[i],
            ) && bn254_g2_is_valid(g2_points(pairs)[i]) by {
                assert(g1_points(pairs)[i] == pair_g1(pairs, i));
                assert(g2_points(pairs)[i] == pair_g2(pairs, i));
            }
        }
    }
}

/// Appending a pair to a run of whole pairs appends its points to the points
/// the pairing check multiplies over.
pub proof fn law_pairing_check_of_appended_pair(pairs: Seq<u8>, g1: Seq<u8>, g2: Seq<u8>)
    requires
        pairs.len() % 192 == 0,
        g1.len() == 64,
        g2.len() == 128,
    ensures
        g1_points(pairs + g1 + g2) == g1_points(pairs).push(g1),
        g2_points(pairs + g1 + g2) == g2_points(pairs).push(g2),
        spec_bn254_pairing_check(pairs + g1 + g2) == ((forall|i: int|
            0 <= i < g1_points(pairs).len() ==> bn254_g1_is_valid(#[trigger] g1_points(pairs)[i])
                && bn254_g2_is_valid(g2_points(pairs)[i])) && bn254_g1_is_valid(g1)
            && bn254_g2_is_valid(g2) && bn254_pairing_product_is_one(
            g1_points(pairs).push(g1),
            g2_points(pairs).push(g2),
        )),
{
    let all = pairs + g1 + g2;
    lemma_points(pairs);
    lemma_points(all);
    let n = (pairs.len() / 192) as int;
    assert(all.len() / 192 == n + 1);
    assert(pair_g1(all, n) =~= g1);
    assert(pair_g2(all, n) =~= g2);
    assert forall|i: int| 0 <= i < n implies pair_g1(all, i) == pair_g1(pairs, i) && pair_g2(all, i)
        == pair_g2(pairs, i) by {
        assert(pair_g1(all, i) =~= pair_g1(pairs, i));
        assert(pair_g2(all, i) =~= pair_g2(pairs, i));
    }
    assert(g1_points(all) =~= g1_points(pairs).push(g1));
    assert(g2_points(all) =~= g2_points(pairs).push(g2));
    law_pairing_check_uses_every_pair(all);
    let p1 = g1_points(pairs).push(g1);
    let p2 = g2_points(pairs).push(g2);
    if (forall|i: int|
        0 <= i < g1_points(pairs).len() ==> bn254_g1_is_valid(#[trigger] g1_points(pairs)[i])
            && bn254_g2_is_valid(g2_points(pairs)[i])) && bn254_g1_is_valid(g1) && bn254_g2_is_valid(
        g2,
    ) {
        assert forall|i: int| 0 <= i < p1.len() implies bn254_g1_is_valid(#[trigger] p1[i])
            && bn254_g2_is_valid(p2[i]) by {
            if i < n {
                assert(p1[i] == g1_points(pairs)[i]);
                assert(p2[i] == g2_points(pairs)[i]);
            }
        }
    }
    if forall|i: int| 0 <= i < p1.len() ==> bn254_g1_is_valid(#[trigger] p1[i]) && bn254_g2_is_valid(
        p2[i],
    ) {
        assert(bn254_g1_is_valid(p1[n]) && bn254_g2_is_valid(p2[n]));
        assert forall|i: int|
            0 <= i < g1_points(pairs).len() implies bn254_g1_is_valid(
            #[trigger] g1_points(pairs)[i],
        ) && bn254_g2_is_valid(g2_points(pairs)[i]) by {
            assert(p1[i] == g1_points(pairs)[i]);
            assert(p2[i] == g2_points(pairs)[i]);
        }
    }
}

} // verus!
