//! The registry of verifiers: their self-descriptions, by proof type and by capability.
use vstd::prelude::*;

use crate::composition::{string_views, str_views};
use crate::keyed::StrMap;

verus! {

/// What a verifier says about itself.
#[derive(Clone)]
pub struct VerifierMetadata {
    pub proof_type_id: String,
    pub version: String,
    pub curve: String,
    pub scheme: String,
    pub supports_recursion: bool,
    pub trusted_setup_required: bool,
    pub max_proof_size: u64,
    pub description: String,
}

/// A capability a verifier offers: a category ("curve" or "scheme") and its value.
#[derive(Clone)]
pub struct CapabilityKey {
    pub category: String,
    pub value: String,
}

/// The registered verifiers, by proof type, and the proof types offering each capability.
pub struct VerifierRegistry {
    metadata: StrMap<VerifierMetadata>,
    capability_index: StrMap<StrMap<Vec<String>>>,
}

/// The proof types listed under a capability in a category-then-value index.
pub open spec fn index_lookup(
    index: Map<Seq<char>, Map<Seq<char>, Seq<Seq<char>>>>,
    category: Seq<char>,
    value: Seq<char>,
) -> Seq<Seq<char>> {
    if index.contains_key(category) && index[category].contains_key(value) {
        index[category][value]
    } else {
        Seq::empty()
    }
}

/// `ids` followed by `id` if the capability (`category`, `value`) is the one
/// named by `key_category` and a non-empty `key_value`.
pub open spec fn indexed_under(
    ids: Seq<Seq<char>>,
    category: Seq<char>,
    value: Seq<char>,
    key_category: Seq<char>,
    key_value: Seq<char>,
    id: Seq<char>,
) -> Seq<Seq<char>> {
    if key_value.len() > 0 && category == key_category && value == key_value {
        ids.push(id)
    } else {
        ids
    }
}

impl VerifierRegistry {
    /// The index as nested maps of contents.
    closed spec fn index_view(&self) -> Map<Seq<char>, Map<Seq<char>, Seq<Seq<char>>>> {
        view_of(self.capability_index)
    }

    #[verifier::type_invariant]
    closed spec fn inv(self) -> bool {
        &&& self.metadata.wf()
        &&& self.capability_index.wf()
        &&& forall|c: Seq<char>| #[trigger]
            self.capability_index.view().contains_key(c) ==> self.capability_index.view()[c].wf()
        &&& forall|k: Seq<char>| #[trigger]
            self.metadata.view().contains_key(k) ==> self.metadata.view()[k].proof_type_id@ == k
        &&& forall|c: Seq<char>, v: Seq<char>, i: int|
            0 <= i < index_lookup(self.index_view(), c, v).len()
                ==> self.metadata.view().contains_key(#[trigger] index_lookup(self.index_view(), c, v)[i])
    }

    /// The registered verifiers, by proof type.
    pub closed spec fn verifiers(&self) -> Map<Seq<char>, VerifierMetadata> {
        self.metadata.view()
    }

    /// The proof types offering the capability `value` in `category`, in the
    /// order of registration (a proof type registered twice is listed twice).
    pub closed spec fn capability(&self, category: Seq<char>, value: Seq<char>) -> Seq<Seq<char>> {
        index_lookup(self.index_view(), category, value)
    }

    /// An empty registry.
    pub fn new() -> (r: Self)
        ensures
            r.verifiers() == Map::<Seq<char>, VerifierMetadata>::empty(),
            forall|c: Seq<char>, v: Seq<char>| #[trigger] r.capability(c, v) == Seq::<Seq<char>>::empty(),
    {
        let r = VerifierRegistry { metadata: StrMap::new(), capability_index: StrMap::new() };
        assert(r.index_view() =~= Map::empty());
        r
    }

    /// Lists `type_id` under the capability `key`.
    fn index_capability(index: &mut StrMap<StrMap<Vec<String>>>, type_id: &str, key: CapabilityKey)
        requires
            old(index).wf(),
            forall|c: Seq<char>| #[trigger]
                old(index).view().contains_key(c) ==> old(index).view()[c].wf(),
        ensures
            final(index).wf(),
            forall|c: Seq<char>| #[trigger]
                final(index).view().contains_key(c) ==> final(index).view()[c].wf(),
            forall|c: Seq<char>, v: Seq<char>| #[trigger]
                index_lookup(view_of(*final(index)), c, v) == if c == key.category@ && v
                    == key.value@ {
                    index_lookup(view_of(*old(index)), c, v).push(type_id@)
                } else {
                    index_lookup(view_of(*old(index)), c, v)
                },
    {
        let ghost old_view = view_of(*index);
        let mut by_value = match index.take(key.category.as_str()) {
            Some(m) => m,
            None => StrMap::new(),
        };
        let mut ids = match by_value.take(key.value.as_str()) {
            Some(v) => v,
            None => Vec::new(),
        };
        let ghost before = string_views(ids@);
        assert(before == index_lookup(old_view, key.category@, key.value@));
        ids.push(type_id.to_owned());
        assert(string_views(ids@) =~= before.push(type_id@));
        by_value.insert(key.value, ids);
        index.insert(key.category, by_value);
        assert forall|c: Seq<char>, v: Seq<char>| #[trigger]
            index_lookup(view_of(*index), c, v) == if c == key.category@ && v == key.value@ {
                index_lookup(old_view, c, v).push(type_id@)
            } else {
                index_lookup(old_view, c, v)
            } by {
        }
    }

    /// Registers a verifier under its proof type, replacing an earlier one of
    /// the same type, and lists it under its curve and scheme where these are
    /// not empty.
    pub fn register(&mut self, metadata: VerifierMetadata)
        ensures
            final(self).verifiers() == old(self).verifiers().insert(
                metadata.proof_type_id@,
                metadata,
            ),
            final(self).verifiers().dom().len() == old(self).verifiers().dom().len() + if old(
                self,
            ).verifiers().contains_key(metadata.proof_type_id@) {
                0int
            } else {
                1int
            },
            forall|c: Seq<char>, v: Seq<char>| #[trigger]
                final(self).capability(c, v) == indexed_under(
                    indexed_under(
                        old(self).capability(c, v),
                        c,
                        v,
                        "curve"@,
                        metadata.curve@,
                        metadata.proof_type_id@,
                    ),
                    c,
                    v,
                    "scheme"@,
                    metadata.scheme@,
                    metadata.proof_type_id@,
                ),
    {
        proof {
            use_type_invariant(&*self);
        }
        let type_id = metadata.proof_type_id.clone();
        let mut index = StrMap::new();
        std::mem::swap(&mut index, &mut self.capability_index);
        let mut meta = StrMap::new();
        std::mem::swap(&mut meta, &mut self.metadata);
        let ghost idx0 = view_of(index);
        let ghost id = metadata.proof_type_id@;
        let ghost curve = metadata.curve@;
        let ghost scheme = metadata.scheme@;
        if !metadata.curve.as_str().is_empty() {
            Self::index_capability(
                &mut index,
                type_id.as_str(),
                CapabilityKey { category: String::from_str("curve"), value: metadata.curve.clone() },
            );
        }
        let ghost idx1 = view_of(index);
        assert forall|c: Seq<char>, v: Seq<char>| #[trigger] index_lookup(idx1, c, v) == indexed_under(
            index_lookup(idx0, c, v),
            c,
            v,
            "curve"@,
            curve,
            id,
        ) by {}
        if !metadata.scheme.as_str().is_empty() {
            Self::index_capability(
                &mut index,
                type_id.as_str(),
                CapabilityKey {
                    category: String::from_str("scheme"),
                    value: metadata.scheme.clone(),
                },
            );
        }
        let ghost idx2 = view_of(index);
        assert forall|c: Seq<char>, v: Seq<char>| #[trigger] index_lookup(idx2, c, v) == indexed_under(
            index_lookup(idx1, c, v),
            c,
            v,
            "scheme"@,
            scheme,
            id,
        ) by {}
        meta.insert(type_id, metadata);
        proof {
            assert forall|c: Seq<char>, v: Seq<char>, i: int|
                0 <= i < index_lookup(idx2, c, v).len() implies meta.view().contains_key(
                #[trigger] index_lookup(idx2, c, v)[i],
            ) by {
                assert(index_lookup(idx1, c, v) == indexed_under(index_lookup(idx0, c, v), c, v, "curve"@, curve, id));
                assert(index_lookup(idx2, c, v) == indexed_under(index_lookup(idx1, c, v), c, v, "scheme"@, scheme, id));
                if i < index_lookup(idx0, c, v).len() {
                    assert(index_lookup(idx2, c, v)[i] == index_lookup(idx0, c, v)[i]);
                    assert(index_lookup(old(self).index_view(), c, v)[i] == index_lookup(idx0, c, v)[i]);
                } else {
                    assert(index_lookup(idx2, c, v)[i] == id);
                }
            }
        }
        std::mem::swap(&mut meta, &mut self.metadata);
        std::mem::swap(&mut index, &mut self.capability_index);
        proof {
            old(self).metadata.lemma_dom();
        }
    }
}

impl VerifierRegistry {
    /// The verifier registered for a proof type.
    pub fn get(&self, proof_type_id: &str) -> (r: Option<&VerifierMetadata>)
        ensures
            r is None <==> !self.verifiers().contains_key(proof_type_id@),
            r matches Some(m) ==> *m == self.verifiers()[proof_type_id@],
    {
        proof {
            use_type_invariant(self);
        }
        self.metadata.get(proof_type_id)
    }

    /// Every registered verifier, once each.
    pub fn list(&self) -> (r: Vec<&VerifierMetadata>)
        ensures
            r@.len() == self.verifiers().dom().len(),
            forall|i: int| #![trigger r@[i]]
                0 <= i < r@.len() ==> self.verifiers().contains_key(r@[i].proof_type_id@)
                    && self.verifiers()[r@[i].proof_type_id@] == *r@[i],
            forall|i: int, j: int|
                0 <= i < j < r@.len() ==> r@[i].proof_type_id@ != r@[j].proof_type_id@,
            forall|k: Seq<char>| #[trigger]
                self.verifiers().contains_key(k) ==> exists|i: int|
                    0 <= i < r@.len() && r@[i].proof_type_id@ == k,
    {
        proof {
            use_type_invariant(self);
            self.metadata.lemma_dom();
            self.metadata.lemma_keys_distinct();
        }
        let n = self.metadata.len();
        let mut out: Vec<&VerifierMetadata> = Vec::new();
        let mut i: usize = 0;
        while i < n
            invariant
                self.metadata.wf(),
                n == self.metadata.key_seq().len(),
                n == self.metadata.value_seq().len(),
                i <= n,
                out@.len() == i,
                forall|k: Seq<char>| #[trigger]
                    self.metadata.view().contains_key(k) ==> self.metadata.view()[k].proof_type_id@
                        == k,
                forall|j: int| #![trigger out@[j]]
                    0 <= j < i ==> *out@[j] == self.metadata.value_seq()[j]
                        && out@[j].proof_type_id@ == self.metadata.key_seq()[j],
            decreases n - i,
        {
            proof {
                self.metadata.lemma_at(i as int);
            }
            out.push(self.metadata.value_at(i));
            i = i + 1;
        }
        proof {
            assert forall|i: int| #![trigger out@[i]] 0 <= i < out@.len() implies self.verifiers().contains_key(
                out@[i].proof_type_id@,
            ) && self.verifiers()[out@[i].proof_type_id@] == *out@[i] by {
                self.metadata.lemma_at(i);
            }
            assert forall|k: Seq<char>| #[trigger] self.verifiers().contains_key(k) implies exists|i: int|
                0 <= i < out@.len() && out@[i].proof_type_id@ == k by {
                assert(self.metadata.key_seq().to_set().contains(k));
                let i = choose|i: int| 0 <= i < self.metadata.key_seq().len() && self.metadata.key_seq()[i] == k;
                assert(out@[i].proof_type_id@ == k);
            }
        }
        out
    }

    /// The verifiers offering the capability `value` in `category`, in the
    /// order they were listed under it.
    pub fn find_by_capability(&self, category: &str, value: &str) -> (r: Vec<&VerifierMetadata>)
        ensures
            r@.len() == self.capability(category@, value@).len(),
            forall|i: int| #![trigger r@[i]]
                0 <= i < r@.len() ==> self.verifiers().contains_key(
                    self.capability(category@, value@)[i],
                ) && *r@[i] == self.verifiers()[self.capability(category@, value@)[i]],
    {
        proof {
            use_type_invariant(self);
        }
        let mut out: Vec<&VerifierMetadata> = Vec::new();
        let ghost ids = self.capability(category@, value@);
        let by_value = match self.capability_index.get(category) {
            Some(m) => m,
            None => {
                assert(ids.len() == 0);
                return out;
            },
        };
        let list = match by_value.get(value) {
            Some(l) => l,
            None => {
                assert(ids.len() == 0);
                return out;
            },
        };
        assert(string_views(list@) == ids);
        let mut i: usize = 0;
        while i < list.len()
            invariant
                self.metadata.wf(),
                i <= list@.len(),
                string_views(list@) == ids,
                out@.len() == i,
                forall|j: int| 0 <= j < ids.len() ==> self.metadata.view().contains_key(
                    #[trigger] ids[j],
                ),
                forall|j: int| #![trigger out@[j]]
                    0 <= j < i ==> *out@[j] == self.metadata.view()[ids[j]],
            decreases list.len() - i,
        {
            assert(ids[i as int] == list@[i as int]@);
            assert(self.metadata.view().contains_key(ids[i as int]));
            match self.metadata.get(list[i].as_str()) {
                Some(m) => out.push(m),
                None => {},
            }
            i = i + 1;
        }
        out
    }

    /// How many proof types are registered.
    pub fn len(&self) -> (n: usize)
        ensures
            n == self.verifiers().dom().len(),
    {
        proof {
            use_type_invariant(self);
        }
        self.metadata.len()
    }

    /// Whether no verifier is registered.
    pub fn is_empty(&self) -> (r: bool)
        ensures
            r == (self.verifiers().dom().len() == 0),
    {
        proof {
            use_type_invariant(self);
        }
        self.metadata.len() == 0
    }
}

impl Default for VerifierRegistry {
    fn default() -> (r: Self)
        ensures
            r.verifiers() == Map::<Seq<char>, VerifierMetadata>::empty(),
            forall|c: Seq<char>, v: Seq<char>| #[trigger] r.capability(c, v) == Seq::<Seq<char>>::empty(),
    {
        Self::new()
    }
}

/// The index as nested maps of contents.
pub closed spec fn view_of(index: StrMap<StrMap<Vec<String>>>) -> Map<
    Seq<char>,
    Map<Seq<char>, Seq<Seq<char>>>,
> {
    index.view().map_values(
        |m: StrMap<Vec<String>>| m.view().map_values(|v: Vec<String>| string_views(v@)),
    )
}

} // verus!
