//! The host side of the verifier interface: what a verifier may ask of the runtime.
use vstd::prelude::*;

use crate::abi::{HASH_KECCAK256, HASH_SHA256};
use crate::crypto::{CryptoProvider, DefaultCryptoProvider};
use crate::storage::{InMemoryStorage, StorageProvider};

verus! {

/// The algorithm name a verifier's hash code stands for; empty for an unknown code.
pub open spec fn spec_hash_algorithm(code: u32) -> Seq<char> {
    if code == HASH_KECCAK256 {
        "keccak256"@
    } else if code == HASH_SHA256 {
        "sha256"@
    } else {
        Seq::empty()
    }
}

/// Names the hash algorithm a verifier asks for by code.
pub fn hash_algorithm(code: u32) -> (name: &'static str)
    ensures
        name@ == spec_hash_algorithm(code),
{
    proof {
        reveal_strlit("");
    }
    if code == HASH_KECCAK256 {
        "keccak256"
    } else if code == HASH_SHA256 {
        "sha256"
    } else {
        ""
    }
}

/// The state a host keeps for its verifiers: a crypto provider and a storage provider.
pub struct HostState<C: CryptoProvider = DefaultCryptoProvider, S: StorageProvider = InMemoryStorage> {
    crypto: C,
    storage: S,
}

impl<C: CryptoProvider, S: StorageProvider> HostState<C, S> {
    /// The digest the crypto provider gives.
    pub closed spec fn hash_result(&self, algorithm: Seq<char>, data: Seq<u8>) -> Seq<u8> {
        self.crypto.hash_result(algorithm, data)
    }

    /// Whether the crypto provider accepts a signature.
    pub closed spec fn signature_result(
        &self,
        scheme: u32,
        message: Seq<u8>,
        signature: Seq<u8>,
        public_key: Seq<u8>,
    ) -> bool {
        self.crypto.signature_result(scheme, message, signature, public_key)
    }

    /// Whether the crypto provider accepts a pairing check.
    pub closed spec fn pairing_result(&self, curve: u32, pairs: Seq<u8>) -> bool {
        self.crypto.pairing_result(curve, pairs)
    }

    /// What the storage provider answers for a verification key.
    pub closed spec fn verification_key_result(&self, key_id: Seq<char>) -> Result<
        Seq<u8>,
        Seq<char>,
    > {
        self.storage.verification_key_result(key_id)
    }

    /// What the storage provider answers for public parameters.
    pub closed spec fn public_params_result(&self, params_id: Seq<char>) -> Result<
        Seq<u8>,
        Seq<char>,
    > {
        self.storage.public_params_result(params_id)
    }

    /// A host state over the given providers.
    pub fn new(crypto: C, storage: S) -> (h: Self)
        ensures
            forall|a: Seq<char>, d: Seq<u8>| #[trigger]
                h.hash_result(a, d) == crypto.hash_result(a, d),
            forall|s: u32, m: Seq<u8>, sig: Seq<u8>, pk: Seq<u8>| #[trigger]
                h.signature_result(s, m, sig, pk) == crypto.signature_result(s, m, sig, pk),
            forall|c: u32, p: Seq<u8>| #[trigger]
                h.pairing_result(c, p) == crypto.pairing_result(c, p),
            forall|k: Seq<char>| #[trigger]
                h.verification_key_result(k) == storage.verification_key_result(k),
            forall|k: Seq<char>| #[trigger]
                h.public_params_result(k) == storage.public_params_result(k),
    {
        HostState { crypto, storage }
    }

    /// Hashes `data` with the named algorithm.
    pub fn hash(&mut self, algorithm: String, data: Vec<u8>) -> (r: Vec<u8>)
        ensures
            r@ == old(self).hash_result(algorithm@, data@),
            *final(self) == *old(self),
    {
        self.crypto.hash(algorithm.as_str(), data.as_slice())
    }

    /// Checks a signature in the given scheme.
    pub fn verify_signature(
        &mut self,
        scheme: u32,
        message: Vec<u8>,
        signature: Vec<u8>,
        public_key: Vec<u8>,
    ) -> (r: bool)
        ensures
            r == old(self).signature_result(scheme, message@, signature@, public_key@),
            *final(self) == *old(self),
    {
        self.crypto.verify_signature(
            scheme,
            message.as_slice(),
            signature.as_slice(),
            public_key.as_slice(),
        )
    }

    /// Checks a pairing product on the given curve.
    pub fn pairing_check(&mut self, curve: u32, pairs: Vec<u8>) -> (r: bool)
        ensures
            r == old(self).pairing_result(curve, pairs@),
            *final(self) == *old(self),
    {
        self.crypto.pairing_check(curve, pairs.as_slice())
    }

    /// Looks up a verification key.
    pub fn get_verification_key(&mut self, key_id: String) -> (r: Result<Vec<u8>, String>)
        ensures
            match old(self).verification_key_result(key_id@) {
                Ok(v) => r matches Ok(x) && x@ == v,
                Err(m) => r matches Err(e) && e@ == m,
            },
            *final(self) == *old(self),
    {
        self.storage.get_verification_key(key_id.as_str())
    }

    /// Looks up public parameters.
    pub fn get_public_params(&mut self, params_id: String) -> (r: Result<Vec<u8>, String>)
        ensures
            match old(self).public_params_result(params_id@) {
                Ok(v) => r matches Ok(x) && x@ == v,
                Err(m) => r matches Err(e) && e@ == m,
            },
            *final(self) == *old(self),
    {
        self.storage.get_public_params(params_id.as_str())
    }
}

impl Default for HostState<DefaultCryptoProvider, InMemoryStorage> {
    fn default() -> (h: Self)
        ensures
            forall|a: Seq<char>, d: Seq<u8>| #[trigger]
                h.hash_result(a, d) == DefaultCryptoProvider.hash_result(a, d),
            forall|s: u32, m: Seq<u8>, sig: Seq<u8>, pk: Seq<u8>| #[trigger]
                h.signature_result(s, m, sig, pk) == DefaultCryptoProvider.signature_result(
                    s,
                    m,
                    sig,
                    pk,
                ),
            forall|c: u32, p: Seq<u8>| #[trigger]
                h.pairing_result(c, p) == DefaultCryptoProvider.pairing_result(c, p),
            forall|k: Seq<char>| #[trigger]
                h.verification_key_result(k) == Err::<Seq<u8>, Seq<char>>(
                    "verification key not found: "@ + k,
                ),
            forall|k: Seq<char>| #[trigger]
                h.public_params_result(k) == Err::<Seq<u8>, Seq<char>>(
                    "public params not found: "@ + k,
                ),
    {
        HostState::new(DefaultCryptoProvider, InMemoryStorage::new())
    }
}

} // verus!
