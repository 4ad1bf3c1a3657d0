//! A finite map keyed by strings, kept as an insertion-ordered list of
//! distinct keys with their values.

use vstd::prelude::*;

verus! {

/// Map from string keys to values; keys are distinct and keep the order in
/// which they were first inserted.
#[derive(Debug)]
pub struct StrMap<V> {
    keys: Vec<String>,
    vals: Vec<V>,
}

impl<V> StrMap<V> {
    /// The keys, in order.
    pub closed spec fn keys_view(&self) -> Seq<Seq<char>> {
        self.keys@.map_values(|k: String| k@)
    }

    /// The values, in the order of their keys.
    pub closed spec fn vals_view(&self) -> Seq<V> {
        self.vals@
    }

    /// Well-formedness: one value per key, and no key twice.
    pub closed spec fn wf(&self) -> bool {
        &&& self.keys@.len() == self.vals@.len()
        &&& self.keys_view().no_duplicates()
    }

    /// The map from each key to its value.
    pub closed spec fn view(&self) -> Map<Seq<char>, V> {
        Map::new(
            |k: Seq<char>| self.keys_view().contains(k),
            |k: Seq<char>| self.vals_view()[self.keys_view().index_of(k)],
        )
    }

    /// The ordered entries relate to the map view: the domain is the set of
    /// keys, each key maps to the value at its position, and keys are distinct.
    pub proof fn lemma_view(&self)
        requires
            self.wf(),
        ensures
            self.keys_view().len() == self.vals_view().len(),
            self.keys_view().no_duplicates(),
            forall|k: Seq<char>| #[trigger] self@.contains_key(k) <==> self.keys_view().contains(k),
            forall|i: int|
                0 <= i < self.keys_view().len() ==> #[trigger] self@[self.keys_view()[i]]
                    == self.vals_view()[i],
            self@.dom().finite(),
            self@.dom().len() == self.keys_view().len(),
    {
        let ks = self.keys_view();
        assert forall|i: int| 0 <= i < ks.len() implies #[trigger] self@[ks[i]] == self.vals_view()[i] by {
            assert(ks.contains(ks[i]));
            let j = ks.index_of(ks[i]);
            assert(ks[j] == ks[i]);
        }
        assert(self@.dom() =~= ks.to_set());
        ks.unique_seq_to_set();
    }

    /// An empty map.
    pub fn new() -> (m: Self)
        ensures
            m.wf(),
            m@ == Map::<Seq<char>, V>::empty(),
            m.keys_view() == Seq::<Seq<char>>::empty(),
    {
        let m = StrMap { keys: Vec::new(), vals: Vec::new() };
        assert(m.keys_view() =~= Seq::<Seq<char>>::empty());
        assert(m@ =~= Map::<Seq<char>, V>::empty());
        m
    }

    /// Number of entries.
    pub fn len(&self) -> (n: usize)
        requires
            self.wf(),
        ensures
            n == self.keys_view().len(),
            n == self@.len(),
    {
        proof {
            self.lemma_view();
        }
        self.keys.len()
    }

    /// Whether the map holds no entry.
    pub fn is_empty(&self) -> (b: bool)
        requires
            self.wf(),
        ensures
            b == (self@.len() == 0),
            b == (self.keys_view().len() == 0),
    {
        self.len() == 0
    }

    /// Key at position `i`.
    pub fn key_at(&self, i: usize) -> (k: &String)
        requires
            self.wf(),
            i < self.keys_view().len(),
        ensures
            k@ == self.keys_view()[i as int],
    {
        &self.keys[i]
    }

    /// Value at position `i`.
    pub fn value_at(&self, i: usize) -> (v: &V)
        requires
            self.wf(),
            i < self.keys_view().len(),
        ensures
            *v == self.vals_view()[i as int],
            *v == self@[self.keys_view()[i as int]],
    {
        proof {
            self.lemma_view();
        }
        &self.vals[i]
    }

    /// Position of `key`, if present.
    pub fn find(&self, key: &str) -> (r: Option<usize>)
        requires
            self.wf(),
        ensures
            match r {
                Some(i) => i < self.keys_view().len() && self.keys_view()[i as int] == key@,
                None => !self.keys_view().contains(key@),
            },
            r is Some <==> self@.contains_key(key@),
    {
        proof {
            self.lemma_view();
        }
        let target = String::from_str(key);
        let mut i: usize = 0;
        while i < self.keys.len()
            invariant
                self.keys@.len() == self.keys_view().len(),
                target@ == key@,
                i <= self.keys@.len(),
                forall|j: int| 0 <= j < i ==> self.keys_view()[j] != key@,
            decreases self.keys@.len() - i,
        {
            if self.keys[i] == target {
                assert(self.keys_view()[i as int] == self.keys@[i as int]@);
                assert(self.keys_view().contains(key@));
                return Some(i);
            }
            i = i + 1;
        }
        None
    }

    /// Whether `key` has an entry.
    pub fn contains_key(&self, key: &str) -> (b: bool)
        requires
            self.wf(),
        ensures
            b == self@.contains_key(key@),
    {
        self.find(key).is_some()
    }

    /// The value of `key`, if present.
    pub fn get(&self, key: &str) -> (r: Option<&V>)
        requires
            self.wf(),
        ensures
            match r {
                Some(v) => self@.contains_key(key@) && *v == self@[key@],
                None => !self@.contains_key(key@),
            },
    {
        match self.find(key) {
            Some(i) => Some(self.value_at(i)),
            None => None,
        }
    }

    /// Sets `key` to `value`. A key already present keeps its position; a new
    /// key goes last.
    pub fn insert(&mut self, key: String, value: V)
        requires
            old(self).wf(),
        ensures
            final(self).wf(),
            final(self)@ == old(self)@.insert(key@, value),
            old(self).keys_view().contains(key@) ==> final(self).keys_view() == old(self).keys_view(),
            !old(self).keys_view().contains(key@) ==> final(self).keys_view() == old(self).keys_view().push(key@),
    {
        proof {
            self.lemma_view();
        }
        let found = self.find(key.as_str());
        match found {
            Some(i) => {
                let ghost old_keys = self.keys_view();
                let ghost old_vals = self.vals_view();
                self.vals.set(i, value);
                proof {
                    assert(self.keys_view() =~= old_keys);
                    self.lemma_view();
                    assert(self@ =~= old(self)@.insert(key@, value)) by {
                        assert forall|k: Seq<char>| #[trigger] self@.contains_key(k) implies self@[k] == old(self)@.insert(key@, value)[k] by {
                            let j = self.keys_view().index_of(k);
                            assert(self.keys_view()[j] == k);
                            assert(self@[self.keys_view()[j]] == self.vals_view()[j]);
                            if k == key@ {
                                assert(old_keys.no_duplicates());
                                assert(j == i);
                            } else {
                                assert(j != i);
                                assert(old(self)@[old_keys[j]] == old_vals[j]);
                            }
                        }
                    }
                }
            },
            None => {
                let ghost old_keys = self.keys_view();
                let ghost old_vals = self.vals_view();
                self.keys.push(key);
                self.vals.push(value);
                proof {
                    assert(self.keys_view() =~= old_keys.push(key@));
                    assert(self.keys_view().no_duplicates()) by {
                        assert forall|a: int, b: int| 0 <= a < b < self.keys_view().len() implies self.keys_view()[a] != self.keys_view()[b] by {
                            if b == old_keys.len() {
                                assert(old_keys.contains(old_keys[a]));
                            }
                        }
                    }
                    self.lemma_view();
                    assert(self@ =~= old(self)@.insert(key@, value)) by {
                        assert forall|k: Seq<char>| self@.contains_key(k) <==> old(self)@.insert(key@, value).contains_key(k) by {
                            if old_keys.contains(k) {
                                let j = old_keys.index_of(k);
                                assert(self.keys_view()[j] == k);
                            }
                            if self.keys_view().contains(k) && k != key@ {
                                let j = self.keys_view().index_of(k);
                                assert(j != old_keys.len());
                                assert(old_keys[j] == k);
                            }
                            if k == key@ {
                                assert(self.keys_view()[old_keys.len() as int] == k);
                            }
                        }
                        assert forall|k: Seq<char>| #[trigger] self@.contains_key(k) implies self@[k] == old(self)@.insert(key@, value)[k] by {
                            let j = self.keys_view().index_of(k);
                            assert(self.keys_view()[j] == k);
                            assert(self@[self.keys_view()[j]] == self.vals_view()[j]);
                            if k != key@ {
                                assert(j < old_keys.len());
                                assert(old_keys[j] == k);
                                assert(old(self)@[old_keys[j]] == old_vals[j]);
                            } else {
                                let n = old_keys.len() as int;
                                assert(self.keys_view()[n] == key@);
                                assert(self@[self.keys_view()[n]] == self.vals_view()[n]);
                            }
                        }
                    }
                }
            },
        }
    }

    /// Removes the entry of `key`, returning its value; the other entries keep
    /// their order.
    pub fn remove(&mut self, key: &str) -> (r: Option<V>)
        requires
            old(self).wf(),
        ensures
            final(self).wf(),
            final(self)@ == old(self)@.remove(key@),
            match r {
                Some(v) => old(self)@.contains_key(key@) && v == old(self)@[key@],
                None => !old(self)@.contains_key(key@),
            },
            !old(self).keys_view().contains(key@) ==> final(self).keys_view() == old(self).keys_view(),
            old(self).keys_view().contains(key@) ==> final(self).keys_view() == old(self).keys_view().remove(old(self).keys_view().index_of(key@)),
    {
        proof {
            self.lemma_view();
        }
        match self.find(key) {
            Some(i) => {
                let ghost old_keys = self.keys_view();
                let ghost old_vals = self.vals_view();
                let ghost old_map = self@;
                let _k = self.keys.remove(i);
                let v = self.vals.remove(i);
                proof {
                    assert(self.keys_view() =~= old_keys.remove(i as int));
                    assert(old_keys.index_of(key@) == i) by {
                        let j = old_keys.index_of(key@);
                        assert(old_keys[j] == key@);
                    }
                    assert(self.keys_view().no_duplicates()) by {
                        assert forall|a: int, b: int| 0 <= a < b < self.keys_view().len() implies self.keys_view()[a] != self.keys_view()[b] by {
                            let a2 = if a < i { a } else { a + 1 };
                            let b2 = if b < i { b } else { b + 1 };
                            assert(self.keys_view()[a] == old_keys[a2]);
                            assert(self.keys_view()[b] == old_keys[b2]);
                        }
                    }
                    self.lemma_view();
                    assert(old_map[old_keys[i as int]] == old_vals[i as int]);
                    assert(self@ =~= old_map.remove(key@)) by {
                        assert forall|k: Seq<char>| self@.contains_key(k) <==> old_map.remove(key@).contains_key(k) by {
                            if self.keys_view().contains(k) {
                                let j = self.keys_view().index_of(k);
                                let j2 = if j < i { j } else { j + 1 };
                                assert(old_keys[j2] == k);
                                assert(old_keys.contains(k));
                                if k == key@ {
                                    assert(j2 != i);
                                }
                            }
                            if old_keys.contains(k) && k != key@ {
                                let j = old_keys.index_of(k);
                                assert(j != i);
                                let j2 = if j < i { j } else { j - 1 };
                                assert(self.keys_view()[j2] == k);
                            }
                        }
                        assert forall|k: Seq<char>| #[trigger] self@.contains_key(k) implies self@[k] == old_map.remove(key@)[k] by {
                            let j = self.keys_view().index_of(k);
                            assert(self.keys_view()[j] == k);
                            assert(self@[self.keys_view()[j]] == self.vals_view()[j]);
                            let j2 = if j < i { j } else { j + 1 };
                            assert(old_keys[j2] == k);
                            assert(old_map[old_keys[j2]] == old_vals[j2]);
                        }
                    }
                }
                Some(v)
            },
            None => None,
        }
    }

    /// Removes every entry.
    pub fn clear(&mut self)
        ensures
            final(self).wf(),
            final(self)@ == Map::<Seq<char>, V>::empty(),
            final(self).keys_view() == Seq::<Seq<char>>::empty(),
    {
        self.keys.clear();
        self.vals.clear();
        proof {
            assert(self.keys_view() =~= Seq::<Seq<char>>::empty());
            assert(self@ =~= Map::<Seq<char>, V>::empty());
        }
    }
}

} // verus!
