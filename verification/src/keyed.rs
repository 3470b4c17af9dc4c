//! A map from strings to values, kept as two vectors in insertion order.
use vstd::prelude::*;

verus! {

/// Whether two string slices hold the same characters.
pub fn str_eq(a: &str, b: &str) -> (r: bool)
    ensures
        r == (a@ == b@),
{
    let x = a.to_owned();
    let y = b.to_owned();
    x == y
}

/// A map from strings to values; each key appears once.
pub struct StrMap<V> {
    keys: Vec<String>,
    values: Vec<V>,
}

impl<V> StrMap<V> {
    /// The keys, in the order they were first inserted.
    pub closed spec fn key_seq(&self) -> Seq<Seq<char>> {
        Seq::new(self.keys@.len(), |i: int| self.keys@[i]@)
    }

    /// The values, in the order of their keys.
    pub closed spec fn value_seq(&self) -> Seq<V> {
        self.values@
    }

    /// Keys and values line up, and no key appears twice.
    pub closed spec fn wf(&self) -> bool {
        &&& self.keys@.len() == self.values@.len()
        &&& self.key_seq().no_duplicates()
    }

    /// The position of key `k`.
    pub closed spec fn position(&self, k: Seq<char>) -> int {
        choose|i: int| 0 <= i < self.keys@.len() && self.keys@[i]@ == k
    }

    /// What the map holds.
    pub closed spec fn view(&self) -> Map<Seq<char>, V> {
        Map::new(|k: Seq<char>| self.key_seq().contains(k), |k: Seq<char>| self.values@[self.position(k)])
    }

    /// The key at position `i` finds the value at position `i`.
    pub proof fn lemma_at(&self, i: int)
        requires
            self.wf(),
            0 <= i < self.key_seq().len(),
        ensures
            self.view().contains_key(self.key_seq()[i]),
            self.view()[self.key_seq()[i]] == self.value_seq()[i],
            self.key_seq().len() == self.value_seq().len(),
    {
        let k = self.key_seq()[i];
        assert(self.key_seq()[i] == self.keys@[i]@);
        assert(self.key_seq().contains(k));
        let j = self.position(k);
        assert(self.key_seq()[j] == k);
    }

    /// No key appears twice.
    pub proof fn lemma_keys_distinct(&self)
        requires
            self.wf(),
        ensures
            forall|i: int, j: int|
                0 <= i < j < self.key_seq().len() ==> self.key_seq()[i] != self.key_seq()[j],
            self.key_seq().len() == self.value_seq().len(),
    {
    }

    /// The keys held are exactly those of the key sequence, and there are as many.
    pub proof fn lemma_dom(&self)
        requires
            self.wf(),
        ensures
            self.view().dom() == self.key_seq().to_set(),
            self.view().dom().len() == self.key_seq().len(),
            self.view().dom().finite(),
    {
        assert(self.view().dom() =~= self.key_seq().to_set());
        self.key_seq().unique_seq_to_set();
    }

    /// An empty map.
    pub fn new() -> (m: Self)
        ensures
            m.wf(),
            m.view() == Map::<Seq<char>, V>::empty(),
    {
        let m = StrMap { keys: Vec::new(), values: Vec::new() };
        assert(m.view() =~= Map::<Seq<char>, V>::empty());
        m
    }

    /// The position of `key`, if it is held.
    pub fn find(&self, key: &str) -> (r: Option<usize>)
        requires
            self.wf(),
        ensures
            r is None <==> !self.view().contains_key(key@),
            r matches Some(i) ==> i < self.key_seq().len() && self.key_seq()[i as int] == key@,
    {
        let mut i: usize = 0;
        while i < self.keys.len()
            invariant
                i <= self.keys@.len(),
                forall|j: int| 0 <= j < i ==> self.key_seq()[j] != key@,
            decreases self.keys.len() - i,
        {
            if str_eq(self.keys[i].as_str(), key) {
                assert(self.key_seq()[i as int] == key@);
                return Some(i);
            }
            i = i + 1;
        }
        None
    }

    /// The value held under `key`.
    pub fn get(&self, key: &str) -> (r: Option<&V>)
        requires
            self.wf(),
        ensures
            r is None <==> !self.view().contains_key(key@),
            r matches Some(v) ==> *v == self.view()[key@],
    {
        match self.find(key) {
            None => None,
            Some(i) => {
                proof {
                    self.lemma_at(i as int);
                }
                Some(&self.values[i])
            },
        }
    }

    /// Holds `value` under `key`, in place of any value held there before.
    pub fn insert(&mut self, key: String, value: V)
        requires
            old(self).wf(),
        ensures
            final(self).wf(),
            final(self).view() == old(self).view().insert(key@, value),
    {
        match self.find(key.as_str()) {
            Some(i) => {
                let ghost ks = self.key_seq();
                self.values.set(i, value);
                assert(self.key_seq() =~= ks);
                assert forall|k: Seq<char>| #[trigger] self.view().contains_key(k) implies self.view()[k]
                    == old(self).view().insert(key@, value)[k] by {
                    let j = self.position(k);
                    assert(self.key_seq()[j] == k);
                    old(self).lemma_at(j);
                }
                assert(self.view() =~= old(self).view().insert(key@, value));
            },
            None => {
                self.keys.push(key);
                self.values.push(value);
                assert(self.key_seq() =~= old(self).key_seq().push(key@));
                assert forall|k: Seq<char>| #[trigger] self.view().contains_key(k) implies self.view()[k]
                    == old(self).view().insert(key@, value)[k] by {
                    let j = self.position(k);
                    assert(self.key_seq()[j] == k);
                    if j < old(self).key_seq().len() {
                        old(self).lemma_at(j);
                    }
                }
                assert forall|k: Seq<char>| #[trigger] old(self).view().insert(key@, value).contains_key(k)
                    implies self.view().contains_key(k) by {
                    if k == key@ {
                        assert(self.key_seq()[old(self).key_seq().len() as int] == k);
                    } else {
                        let j = old(self).position(k);
                        assert(old(self).key_seq()[j] == k);
                        assert(self.key_seq()[j] == k);
                    }
                }
                assert(self.view() =~= old(self).view().insert(key@, value));
            },
        }
    }

    /// Removes and returns the value held under `key`.
    pub fn take(&mut self, key: &str) -> (r: Option<V>)
        requires
            old(self).wf(),
        ensures
            final(self).wf(),
            final(self).view() == old(self).view().remove(key@),
            r == old(self).view().get(key@),
    {
        match self.find(key) {
            None => {
                assert(self.view() =~= old(self).view().remove(key@));
                None
            },
            Some(i) => {
                proof {
                    self.lemma_at(i as int);
                }
                self.keys.remove(i);
                let v = self.values.remove(i);
                assert(self.key_seq() =~= old(self).key_seq().remove(i as int));
                assert forall|k: Seq<char>| #[trigger] self.view().contains_key(k) implies self.view()[k]
                    == old(self).view().remove(key@)[k] by {
                    let j = self.position(k);
                    assert(self.key_seq()[j] == k);
                    if j < i {
                        old(self).lemma_at(j);
                    } else {
                        old(self).lemma_at(j + 1);
                    }
                }
                assert forall|k: Seq<char>| #[trigger] old(self).view().remove(key@).contains_key(k)
                    implies self.view().contains_key(k) by {
                    let j = old(self).position(k);
                    assert(old(self).key_seq()[j] == k);
                    if j < i {
                        assert(self.key_seq()[j] == k);
                    } else {
                        assert(self.key_seq()[j - 1] == k);
                    }
                }
                assert(self.view() =~= old(self).view().remove(key@));
                Some(v)
            },
        }
    }

    /// How many keys are held.
    pub fn len(&self) -> (n: usize)
        requires
            self.wf(),
        ensures
            n == self.view().dom().len(),
    {
        proof {
            self.lemma_dom();
        }
        self.keys.len()
    }

    /// The value at position `i`.
    pub fn value_at(&self, i: usize) -> (v: &V)
        requires
            self.wf(),
            i < self.value_seq().len(),
        ensures
            *v == self.value_seq()[i as int],
    {
        &self.values[i]
    }
}

} // verus!
