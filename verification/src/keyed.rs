//! A map from string keys to values, kept as a list of entries with
//! distinct keys.

use vstd::prelude::*;

verus! {

/// A map from `String` keys to values; no key occurs twice.
pub struct StrMap<V> {
    entries: Vec<(String, V)>,
}

impl<V: View> StrMap<V> {
    /// The keys, in entry order.
    pub closed spec fn keys(self) -> Seq<Seq<char>> {
        self.entries@.map_values(|e: (String, V)| e.0@)
    }

    /// The values, in entry order.
    pub closed spec fn values(self) -> Seq<V::V> {
        self.entries@.map_values(|e: (String, V)| e.1@)
    }

    /// No key occurs twice.
    pub closed spec fn wf(self) -> bool {
        self.keys().no_duplicates()
    }

    spec fn index_of_key(self, k: Seq<char>) -> int {
        choose|i: int| 0 <= i < self.keys().len() && self.keys()[i] == k
    }

    /// The map the entries stand for.
    pub closed spec fn as_map(self) -> Map<Seq<char>, V::V> {
        Map::new(|k: Seq<char>| self.keys().contains(k), |k: Seq<char>| self.values()[self.index_of_key(k)])
    }

    proof fn lemma_index_of(self, i: int)
        requires
            self.wf(),
            0 <= i < self.keys().len(),
        ensures
            self.index_of_key(self.keys()[i]) == i,
            self.as_map().contains_key(self.keys()[i]),
            self.as_map()[self.keys()[i]] == self.values()[i],
    {
        let k = self.keys()[i];
        assert(self.keys().contains(k));
        let j = self.index_of_key(k);
        assert(0 <= j < self.keys().len() && self.keys()[j] == k);
    }

    /// How the entries relate to the map they stand for.
    pub proof fn lemma_entries(self)
        requires
            self.wf(),
        ensures
            self.keys().len() == self.values().len(),
            self.keys().no_duplicates(),
            forall|i: int|
                0 <= i < self.keys().len() ==> #[trigger] self.as_map().contains_key(self.keys()[i])
                    && self.as_map()[self.keys()[i]] == self.values()[i],
            forall|k: Seq<char>| #[trigger] self.as_map().contains_key(k) <==> self.keys().contains(k),
    {
        assert forall|i: int| 0 <= i < self.keys().len() implies #[trigger] self.as_map().contains_key(self.keys()[i])
            && self.as_map()[self.keys()[i]] == self.values()[i] by {
            self.lemma_index_of(i);
        }
    }

    /// An empty map.
    pub fn new() -> (m: Self)
        ensures
            m.wf(),
            m.as_map() == Map::<Seq<char>, V::V>::empty(),
            m.keys().len() == 0,
            m.values().len() == 0,
    {
        let m = StrMap { entries: Vec::new() };
        assert(m.as_map() =~= Map::<Seq<char>, V::V>::empty());
        m
    }

    /// The number of entries.
    pub fn len(&self) -> (n: usize)
        ensures
            n == self.keys().len(),
            n == self.values().len(),
    {
        self.entries.len()
    }

    /// The position of the entry with key `k`, if any.
    pub fn find(&self, k: &str) -> (r: Option<usize>)
        requires
            self.wf(),
        ensures
            match r {
                Some(i) => i < self.keys().len() && self.keys()[i as int] == k@,
                None => !self.as_map().contains_key(k@),
            },
    {
        let key = k.to_owned();
        let mut i: usize = 0;
        while i < self.entries.len()
            invariant
                i <= self.entries.len(),
                key@ == k@,
                forall|j: int| 0 <= j < i ==> self.keys()[j] != k@,
            decreases self.entries.len() - i,
        {
            if self.entries[i].0 == key {
                return Some(i);
            }
            i = i + 1;
        }
        assert(!self.keys().contains(k@));
        None
    }

    /// The value of the entry at position `i`.
    pub fn value_at(&self, i: usize) -> (v: &V)
        requires
            i < self.keys().len(),
        ensures
            v@ == self.values()[i as int],
    {
        &self.entries[i].1
    }

    /// The value stored under `k`, if any.
    pub fn get(&self, k: &str) -> (r: Option<&V>)
        requires
            self.wf(),
        ensures
            match r {
                Some(v) => self.as_map().contains_key(k@) && v@ == self.as_map()[k@],
                None => !self.as_map().contains_key(k@),
            },
    {
        match self.find(k) {
            Some(i) => {
                proof {
                    self.lemma_index_of(i as int);
                }
                Some(&self.entries[i].1)
            },
            None => None,
        }
    }

    /// Replaces the value of the entry at position `i`.
    pub fn set_value(&mut self, i: usize, v: V)
        requires
            old(self).wf(),
            i < old(self).keys().len(),
        ensures
            final(self).wf(),
            final(self).keys() == old(self).keys(),
            final(self).values() == old(self).values().update(i as int, v@),
            final(self).as_map() == old(self).as_map().insert(old(self).keys()[i as int], v@),
    {
        let ghost old_self = *self;
        let ghost k = self.keys()[i as int];
        let ghost vv = v@;
        let key = self.entries[i].0.clone();
        self.entries.set(i, (key, v));
        assert(self.keys() =~= old_self.keys());
        assert(self.values() =~= old_self.values().update(i as int, vv));
        proof {
            old_self.lemma_entries();
            self.lemma_entries();
            assert forall|x: Seq<char>| #[trigger] self.as_map().contains_key(x) implies
                self.as_map()[x] == old_self.as_map().insert(k, vv)[x] by {
                let j = choose|j: int| 0 <= j < self.keys().len() && self.keys()[j] == x;
                self.lemma_index_of(j);
                old_self.lemma_index_of(j);
            }
            assert(self.as_map() =~= old_self.as_map().insert(k, vv));
        }
    }

    /// Stores `v` under `k`, replacing the value stored there before.
    pub fn insert(&mut self, k: String, v: V)
        requires
            old(self).wf(),
        ensures
            final(self).wf(),
            final(self).as_map() == old(self).as_map().insert(k@, v@),
    {
        match self.find(k.as_str()) {
            Some(i) => {
                self.set_value(i, v);
            },
            None => {
                let ghost old_self = *self;
                let ghost kk = k@;
                let ghost vv = v@;
                self.entries.push((k, v));
                assert(self.keys() =~= old_self.keys().push(kk));
                assert(self.values() =~= old_self.values().push(vv));
                proof {
                    old_self.lemma_entries();
                    assert(!old_self.keys().contains(kk));
                    assert(self.keys().no_duplicates()) by {
                        assert forall|a: int, b: int| 0 <= a < b < self.keys().len() implies self.keys()[a] != self.keys()[b] by {
                            if b == old_self.keys().len() {
                                assert(old_self.keys()[a] == self.keys()[a]);
                            }
                        }
                    }
                    self.lemma_entries();
                    assert forall|x: Seq<char>| #[trigger] self.as_map().contains_key(x) implies
                        self.as_map()[x] == old_self.as_map().insert(kk, vv)[x] by {
                        let j = choose|j: int| 0 <= j < self.keys().len() && self.keys()[j] == x;
                        self.lemma_index_of(j);
                        if j < old_self.keys().len() {
                            old_self.lemma_index_of(j);
                        }
                    }
                    assert forall|x: Seq<char>| old_self.as_map().insert(kk, vv).contains_key(x) implies
                        #[trigger] self.as_map().contains_key(x) by {
                        if x != kk {
                            let j = choose|j: int| 0 <= j < old_self.keys().len() && old_self.keys()[j] == x;
                            assert(self.keys()[j] == x);
                        } else {
                            assert(self.keys()[old_self.keys().len() as int] == kk);
                        }
                    }
                    assert(self.as_map() =~= old_self.as_map().insert(kk, vv));
                }
            },
        }
    }

    /// Removes the entry with key `k`, if there is one.
    pub fn remove(&mut self, k: &str)
        requires
            old(self).wf(),
        ensures
            final(self).wf(),
            final(self).as_map() == old(self).as_map().remove(k@),
    {
        match self.find(k) {
            Some(i) => {
                let ghost old_self = *self;
                let ghost kk = k@;
                let _ = self.entries.remove(i);
                assert(self.keys() =~= old_self.keys().remove(i as int));
                assert(self.values() =~= old_self.values().remove(i as int));
                proof {
                    old_self.lemma_entries();
                    assert(self.keys().no_duplicates()) by {
                        assert forall|a: int, b: int| 0 <= a < b < self.keys().len() implies self.keys()[a] != self.keys()[b] by {
                            let oa = if a < i { a } else { a + 1 };
                            let ob = if b < i { b } else { b + 1 };
                            assert(self.keys()[a] == old_self.keys()[oa]);
                            assert(self.keys()[b] == old_self.keys()[ob]);
                        }
                    }
                    self.lemma_entries();
                    assert forall|x: Seq<char>| #[trigger] self.as_map().contains_key(x) implies
                        x != kk && old_self.as_map().contains_key(x) && self.as_map()[x] == old_self.as_map()[x] by {
                        let j = choose|j: int| 0 <= j < self.keys().len() && self.keys()[j] == x;
                        self.lemma_index_of(j);
                        let oj = if j < i { j } else { j + 1 };
                        assert(old_self.keys()[oj] == x);
                        old_self.lemma_index_of(oj);
                        assert(oj != i);
                    }
                    assert forall|x: Seq<char>| old_self.as_map().remove(kk).contains_key(x) implies
                        #[trigger] self.as_map().contains_key(x) by {
                        let j = choose|j: int| 0 <= j < old_self.keys().len() && old_self.keys()[j] == x;
                        assert(j != i);
                        let nj = if j < i { j } else { j - 1 };
                        assert(self.keys()[nj] == x);
                    }
                    assert(self.as_map() =~= old_self.as_map().remove(kk));
                }
            },
            None => {
                assert(self.as_map() =~= self.as_map().remove(k@));
            },
        }
    }
}

impl<V: View> View for StrMap<V> {
    type V = Map<Seq<char>, V::V>;

    open spec fn view(&self) -> Map<Seq<char>, V::V> {
        self.as_map()
    }
}

} // verus!
