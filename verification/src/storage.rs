//! Where verification keys and public parameters come from.
use vstd::prelude::*;

use crate::keyed::StrMap;
use vstd::slice::slice_to_vec;

verus! {

/// A source of verification keys and public parameters, looked up by id.
pub trait StorageProvider: Send + Sync {
    /// The outcome of looking up a verification key: its bytes, or a message.
    spec fn verification_key_result(&self, key_id: Seq<char>) -> Result<Seq<u8>, Seq<char>>;

    /// The outcome of looking up public parameters: their bytes, or a message.
    spec fn public_params_result(&self, params_id: Seq<char>) -> Result<Seq<u8>, Seq<char>>;

    /// Looks up a verification key.
    fn get_verification_key(&self, key_id: &str) -> (r: Result<Vec<u8>, String>)
        ensures
            match self.verification_key_result(key_id@) {
                Ok(v) => r matches Ok(x) && x@ == v,
                Err(m) => r matches Err(e) && e@ == m,
            },
    ;

    /// Looks up public parameters.
    fn get_public_params(&self, params_id: &str) -> (r: Result<Vec<u8>, String>)
        ensures
            match self.public_params_result(params_id@) {
                Ok(v) => r matches Ok(x) && x@ == v,
                Err(m) => r matches Err(e) && e@ == m,
            },
    ;
}

/// Verification keys and public parameters held in memory.
pub struct InMemoryStorage {
    verification_keys: StrMap<Vec<u8>>,
    public_params: StrMap<Vec<u8>>,
}

impl InMemoryStorage {
    #[verifier::type_invariant]
    closed spec fn inv(self) -> bool {
        self.verification_keys.wf() && self.public_params.wf()
    }

    /// The verification keys held, by id.
    pub closed spec fn verification_keys(&self) -> Map<Seq<char>, Seq<u8>> {
        self.verification_keys.view().map_values(|v: Vec<u8>| v@)
    }

    /// The public parameters held, by id.
    pub closed spec fn public_params(&self) -> Map<Seq<char>, Seq<u8>> {
        self.public_params.view().map_values(|v: Vec<u8>| v@)
    }

    /// Storage that holds nothing.
    pub fn new() -> (s: Self)
        ensures
            s.verification_keys() == Map::<Seq<char>, Seq<u8>>::empty(),
            s.public_params() == Map::<Seq<char>, Seq<u8>>::empty(),
    {
        let s = InMemoryStorage { verification_keys: StrMap::new(), public_params: StrMap::new() };
        assert(s.verification_keys() =~= Map::<Seq<char>, Seq<u8>>::empty());
        assert(s.public_params() =~= Map::<Seq<char>, Seq<u8>>::empty());
        s
    }

    /// Holds `key` as the verification key `key_id`, in place of any held before.
    pub fn insert_verification_key(&mut self, key_id: String, key: Vec<u8>)
        ensures
            final(self).verification_keys() == old(self).verification_keys().insert(key_id@, key@),
            final(self).public_params() == old(self).public_params(),
    {
        proof {
            use_type_invariant(&*self);
        }
        let ghost k = key@;
        let mut keys = StrMap::new();
        std::mem::swap(&mut keys, &mut self.verification_keys);
        keys.insert(key_id, key);
        std::mem::swap(&mut keys, &mut self.verification_keys);
        assert(self.verification_keys() =~= old(self).verification_keys().insert(key_id@, k));
    }

    /// Holds `params` as the public parameters `params_id`, in place of any held before.
    pub fn insert_public_params(&mut self, params_id: String, params: Vec<u8>)
        ensures
            final(self).public_params() == old(self).public_params().insert(params_id@, params@),
            final(self).verification_keys() == old(self).verification_keys(),
    {
        proof {
            use_type_invariant(&*self);
        }
        let ghost p = params@;
        let mut all = StrMap::new();
        std::mem::swap(&mut all, &mut self.public_params);
        all.insert(params_id, params);
        std::mem::swap(&mut all, &mut self.public_params);
        assert(self.public_params() =~= old(self).public_params().insert(params_id@, p));
    }
}

impl Default for InMemoryStorage {
    fn default() -> (s: Self)
        ensures
            s.verification_keys() == Map::<Seq<char>, Seq<u8>>::empty(),
            s.public_params() == Map::<Seq<char>, Seq<u8>>::empty(),
    {
        Self::new()
    }
}

/// Looks `id` up in `map`; a missing id gives `prefix` followed by the id.
fn lookup(map: &StrMap<Vec<u8>>, id: &str, prefix: &str) -> (r: Result<Vec<u8>, String>)
    requires
        map.wf(),
    ensures
        match r {
            Ok(v) => map.view().contains_key(id@) && v@ == map.view()[id@]@,
            Err(e) => !map.view().contains_key(id@) && e@ == prefix@ + id@,
        },
{
    match map.get(id) {
        Some(v) => Ok(slice_to_vec(v.as_slice())),
        None => {
            let mut m = prefix.to_owned();
            m.append(id);
            Err(m)
        },
    }
}

impl StorageProvider for InMemoryStorage {
    open spec fn verification_key_result(&self, key_id: Seq<char>) -> Result<Seq<u8>, Seq<char>> {
        if self.verification_keys().contains_key(key_id) {
            Ok(self.verification_keys()[key_id])
        } else {
            Err("verification key not found: "@ + key_id)
        }
    }

    open spec fn public_params_result(&self, params_id: Seq<char>) -> Result<Seq<u8>, Seq<char>> {
        if self.public_params().contains_key(params_id) {
            Ok(self.public_params()[params_id])
        } else {
            Err("public params not found: "@ + params_id)
        }
    }

    fn get_verification_key(&self, key_id: &str) -> (r: Result<Vec<u8>, String>) {
        proof {
            use_type_invariant(self);
        }
        lookup(&self.verification_keys, key_id, "verification key not found: ")
    }

    fn get_public_params(&self, params_id: &str) -> (r: Result<Vec<u8>, String>) {
        proof {
            use_type_invariant(self);
        }
        lookup(&self.public_params, params_id, "public params not found: ")
    }
}

} // verus!
