//! Which verifiers delegate to which others.
use vstd::prelude::*;

use crate::keyed::StrMap;

verus! {

/// The contents of a sequence of strings.
pub open spec fn string_views(v: Seq<String>) -> Seq<Seq<char>> {
    Seq::new(v.len(), |i: int| v[i]@)
}

/// The contents of a sequence of string slices.
pub open spec fn str_views(v: Seq<&str>) -> Seq<Seq<char>> {
    Seq::new(v.len(), |i: int| v[i]@)
}

/// For each verifier, the verifiers it depends on, in the order they were added.
pub struct CompositionGraph {
    edges: StrMap<Vec<String>>,
}

impl CompositionGraph {
    #[verifier::type_invariant]
    closed spec fn inv(self) -> bool {
        self.edges.wf()
    }

    /// The dependencies of each verifier that has any recorded.
    pub closed spec fn dependencies(&self) -> Map<Seq<char>, Seq<Seq<char>>> {
        self.edges.view().map_values(|v: Vec<String>| string_views(v@))
    }

    /// A graph without edges.
    pub fn new() -> (g: Self)
        ensures
            g.dependencies() == Map::<Seq<char>, Seq<Seq<char>>>::empty(),
    {
        let g = CompositionGraph { edges: StrMap::new() };
        assert(g.dependencies() =~= Map::<Seq<char>, Seq<Seq<char>>>::empty());
        g
    }

    /// Records that `verifier` depends on `depends_on`, after its earlier dependencies.
    pub fn add_dependency(&mut self, verifier: &str, depends_on: &str)
        ensures
            final(self).dependencies() == old(self).dependencies().insert(
                verifier@,
                (if old(self).dependencies().contains_key(verifier@) {
                    old(self).dependencies()[verifier@]
                } else {
                    Seq::empty()
                }).push(depends_on@),
            ),
    {
        proof {
            use_type_invariant(&*self);
        }
        let mut edges = StrMap::new();
        std::mem::swap(&mut edges, &mut self.edges);
        let mut deps = match edges.take(verifier) {
            Some(d) => d,
            None => Vec::new(),
        };
        let ghost before = string_views(deps@);
        let ghost old_deps = old(self).dependencies();
        assert(before =~= (if old_deps.contains_key(verifier@) {
            old_deps[verifier@]
        } else {
            Seq::empty()
        }));
        deps.push(depends_on.to_owned());
        assert(string_views(deps@) =~= before.push(depends_on@));
        edges.insert(verifier.to_owned(), deps);
        std::mem::swap(&mut edges, &mut self.edges);
        assert(self.dependencies() =~= old(self).dependencies().insert(
            verifier@,
            (if old(self).dependencies().contains_key(verifier@) {
                old(self).dependencies()[verifier@]
            } else {
                Seq::empty()
            }).push(depends_on@),
        ));
    }

    /// The verifiers that `verifier` depends on, in the order they were added.
    pub fn dependencies_of(&self, verifier: &str) -> (deps: Vec<&str>)
        ensures
            str_views(deps@) == (if self.dependencies().contains_key(verifier@) {
                self.dependencies()[verifier@]
            } else {
                Seq::empty()
            }),
    {
        proof {
            use_type_invariant(self);
        }
        let mut out: Vec<&str> = Vec::new();
        match self.edges.get(verifier) {
            None => {
                assert(str_views(out@) =~= Seq::<Seq<char>>::empty());
            },
            Some(list) => {
                let mut i: usize = 0;
                while i < list.len()
                    invariant
                        i <= list@.len(),
                        out@.len() == i,
                        str_views(out@) == string_views(list@).take(i as int),
                    decreases list.len() - i,
                {
                    let s = list[i].as_str();
                    assert(s@ == list@[i as int]@);
                    let ghost prev = out@;
                    out.push(s);
                    assert forall|j: int| 0 <= j < i + 1 implies #[trigger] str_views(out@)[j]
                        == string_views(list@)[j] by {
                        if j < i {
                            assert(out@[j] == prev[j]);
                            assert(str_views(prev)[j] == string_views(list@).take(i as int)[j]);
                        }
                    }
                    assert(str_views(out@) =~= string_views(list@).take(i + 1));
                    i = i + 1;
                }
                assert(string_views(list@).take(list@.len() as int) =~= string_views(list@));
            },
        }
        out
    }

    /// Whether no dependency has been recorded.
    pub fn is_empty(&self) -> (r: bool)
        ensures
            r == (self.dependencies().dom().len() == 0),
    {
        proof {
            use_type_invariant(self);
            self.edges.lemma_dom();
            assert(self.dependencies().dom() =~= self.edges.view().dom());
        }
        self.edges.len() == 0
    }
}

impl Default for CompositionGraph {
    fn default() -> (g: Self)
        ensures
            g.dependencies() == Map::<Seq<char>, Seq<Seq<char>>>::empty(),
    {
        Self::new()
    }
}

} // verus!
