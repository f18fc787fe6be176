//! A finite map kept in a vector, for keys that are texts or tuples of texts.

use vstd::prelude::*;

verus! {

/// What a key of a [`Table`] must offer: a test for equal views and a copy.
pub trait Key: View + Sized {
    fn same(&self, other: &Self) -> (r: bool)
        ensures
            r == (self@ == other@),
    ;

    fn duplicate(&self) -> (r: Self)
        ensures
            r@ == self@,
    ;
}

impl Key for String {
    fn same(&self, other: &Self) -> (r: bool) {
        *self == *other
    }

    fn duplicate(&self) -> (r: Self) {
        self.clone()
    }
}

impl Key for (String, String) {
    fn same(&self, other: &Self) -> (r: bool) {
        self.0 == other.0 && self.1 == other.1
    }

    fn duplicate(&self) -> (r: Self) {
        (self.0.clone(), self.1.clone())
    }
}

impl Key for (String, String, String) {
    fn same(&self, other: &Self) -> (r: bool) {
        self.0 == other.0 && self.1 == other.1 && self.2 == other.2
    }

    fn duplicate(&self) -> (r: Self) {
        (self.0.clone(), self.1.clone(), self.2.clone())
    }
}

/// A finite map that keeps its entries in a vector, no key twice. Its view
/// is the map from the keys' views to the values' views.
pub struct Table<K: Key, V: View> {
    entries: Vec<(K, V)>,
}

impl<K: Key, V: View> View for Table<K, V> {
    type V = Map<K::V, V::V>;

    open spec fn view(&self) -> Map<K::V, V::V> {
        Map::new(
            |k: K::V| self.key_seq().contains(k),
            |k: K::V| self.value_seq()[self.key_seq().index_of(k)],
        )
    }
}

impl<K: Key, V: View> Table<K, V> {
    #[verifier::type_invariant]
    spec fn inv(&self) -> bool {
        self.key_seq().no_duplicates()
    }

    /// The keys in the order in which the table holds them.
    pub closed spec fn key_seq(&self) -> Seq<K::V> {
        Self::keys_of(self.entries@)
    }

    spec fn keys_of(entries: Seq<(K, V)>) -> Seq<K::V> {
        Seq::new(entries.len(), |i: int| entries[i].0@)
    }

    /// The values in the order in which the table holds them.
    pub closed spec fn value_seq(&self) -> Seq<V::V> {
        Seq::new(self.entries@.len(), |i: int| self.entries@[i].1@)
    }

    proof fn lemma_at(&self, i: int)
        requires
            self.key_seq().no_duplicates(),
            0 <= i < self.key_seq().len(),
        ensures
            self@.contains_key(self.key_seq()[i]),
            self@[self.key_seq()[i]] == self.value_seq()[i],
            self.key_seq().index_of(self.key_seq()[i]) == i,
    {
        let k = self.key_seq()[i];
        assert(self.key_seq().contains(k));
        let j = self.key_seq().index_of(k);
        assert(0 <= j < self.key_seq().len() && self.key_seq()[j] == k);
    }

    pub fn new() -> (r: Self)
        ensures
            r@ == Map::<K::V, V::V>::empty(),
            r.key_seq() == Seq::<K::V>::empty(),
    {
        let r = Table { entries: Vec::new() };
        assert(r.key_seq() =~= Seq::<K::V>::empty());
        assert(r@ =~= Map::<K::V, V::V>::empty());
        r
    }

    fn position(&self, k: &K) -> (r: Option<usize>)
        ensures
            match r {
                Some(i) => i < self.key_seq().len() && self.key_seq()[i as int] == k@,
                None => !self.key_seq().contains(k@),
            },
    {
        let mut i: usize = 0;
        while i < self.entries.len()
            invariant
                i <= self.entries@.len(),
                self.key_seq().len() == self.entries@.len(),
                forall|j: int| 0 <= j < i ==> self.key_seq()[j] != k@,
            decreases self.entries@.len() - i,
        {
            if self.entries[i].0.same(k) {
                return Some(i);
            }
            i += 1;
        }
        None
    }

    /// The number of entries; the keys are pairwise different.
    pub fn len(&self) -> (r: usize)
        ensures
            r == self.key_seq().len(),
            self.key_seq().no_duplicates(),
            self@.dom().finite(),
            self@.dom() == self.key_seq().to_set(),
    {
        proof {
            use_type_invariant(self);
            assert(self@.dom() =~= self.key_seq().to_set());
            vstd::seq_lib::seq_to_set_is_finite(self.key_seq());
        }
        self.entries.len()
    }

    pub fn key_at(&self, i: usize) -> (r: &K)
        requires
            i < self.key_seq().len(),
        ensures
            r@ == self.key_seq()[i as int],
            self@.contains_key(r@),
    {
        proof {
            use_type_invariant(self);
            self.lemma_at(i as int);
        }
        &self.entries[i].0
    }

    pub fn value_at(&self, i: usize) -> (r: &V)
        requires
            i < self.key_seq().len(),
        ensures
            r@ == self@[self.key_seq()[i as int]],
    {
        proof {
            use_type_invariant(self);
            self.lemma_at(i as int);
        }
        &self.entries[i].1
    }

    pub fn get(&self, k: &K) -> (r: Option<&V>)
        ensures
            match r {
                Some(v) => self@.contains_key(k@) && v@ == self@[k@],
                None => !self@.contains_key(k@),
            },
    {
        match self.position(k) {
            Some(i) => {
                proof {
                    use_type_invariant(self);
                    self.lemma_at(i as int);
                }
                Some(&self.entries[i].1)
            },
            None => None,
        }
    }

    pub fn contains(&self, k: &K) -> (r: bool)
        ensures
            r == self@.contains_key(k@),
    {
        self.position(k).is_some()
    }

    /// Sets the value of `k`, whether or not the table held one.
    pub fn insert(&mut self, k: K, v: V)
        ensures
            final(self)@ == old(self)@.insert(k@, v@),
    {
        proof {
            use_type_invariant(&*self);
        }
        let ghost before = *self;
        match self.position(&k) {
            Some(i) => {
                let mut entries: Vec<(K, V)> = Vec::new();
                std::mem::swap(&mut self.entries, &mut entries);
                entries.set(i, (k, v));
                proof {
                    assert(Self::keys_of(entries@) =~= before.key_seq());
                }
                self.entries = entries;
                proof {
                    assert(self.key_seq() =~= before.key_seq());
                    assert(self.value_seq() =~= before.value_seq().update(i as int, v@));
                    assert forall|q: K::V| self.key_seq().contains(q) implies #[trigger] self@[q]
                        == before@.insert(k@, v@)[q] by {
                        let j = self.key_seq().index_of(q);
                        before.lemma_at(j);
                        before.lemma_at(i as int);
                    }
                    before.lemma_at(i as int);
                    assert(self@ =~= before@.insert(k@, v@));
                }
            },
            None => {
                let mut entries: Vec<(K, V)> = Vec::new();
                std::mem::swap(&mut self.entries, &mut entries);
                entries.push((k, v));
                proof {
                    assert(Self::keys_of(entries@) =~= before.key_seq().push(k@));
                    assert(Self::keys_of(entries@).no_duplicates());
                }
                self.entries = entries;
                proof {
                    let n = before.key_seq().len() as int;
                    assert(self.key_seq() =~= before.key_seq().push(k@));
                    assert(self.value_seq() =~= before.value_seq().push(v@));
                    assert(self.key_seq().no_duplicates());
                    assert forall|q: K::V| self.key_seq().contains(q) <==> (q == k@
                        || before.key_seq().contains(q)) by {
                        if before.key_seq().contains(q) {
                            let j = before.key_seq().index_of(q);
                            assert(self.key_seq()[j] == q);
                        }
                        if q == k@ {
                            assert(self.key_seq()[n] == q);
                        }
                    }
                    assert forall|q: K::V| self.key_seq().contains(q) implies #[trigger] self@[q]
                        == before@.insert(k@, v@)[q] by {
                        let j = self.key_seq().index_of(q);
                        self.lemma_at(j);
                        if j < n {
                            before.lemma_at(j);
                        }
                    }
                    assert(self@ =~= before@.insert(k@, v@));
                }
            },
        }
    }

    /// Takes the entry of `k` out, where there is one.
    pub fn remove(&mut self, k: &K)
        ensures
            final(self)@ == old(self)@.remove(k@),
    {
        proof {
            use_type_invariant(&*self);
        }
        let ghost before = *self;
        match self.position(k) {
            Some(i) => {
                let mut entries: Vec<(K, V)> = Vec::new();
                std::mem::swap(&mut self.entries, &mut entries);
                entries.remove(i);
                proof {
                    assert(Self::keys_of(entries@) =~= before.key_seq().remove(i as int));
                    assert(Self::keys_of(entries@).no_duplicates());
                }
                self.entries = entries;
                proof {
                    assert(self.key_seq() =~= before.key_seq().remove(i as int));
                    assert(self.value_seq() =~= before.value_seq().remove(i as int));
                    assert(self.key_seq().no_duplicates());
                    before.lemma_at(i as int);
                    assert forall|q: K::V| self.key_seq().contains(q) <==> (q != k@
                        && before.key_seq().contains(q)) by {
                        if self.key_seq().contains(q) {
                            let j = self.key_seq().index_of(q);
                            if j < i {
                                assert(before.key_seq()[j] == q);
                            } else {
                                assert(before.key_seq()[j + 1] == q);
                            }
                        }
                        if q != k@ && before.key_seq().contains(q) {
                            let j = before.key_seq().index_of(q);
                            if j < i {
                                assert(self.key_seq()[j] == q);
                            } else {
                                assert(self.key_seq()[j - 1] == q);
                            }
                        }
                    }
                    assert forall|q: K::V| self.key_seq().contains(q) implies #[trigger] self@[q]
                        == before@[q] by {
                        let j = self.key_seq().index_of(q);
                        self.lemma_at(j);
                        if j < i {
                            before.lemma_at(j);
                        } else {
                            before.lemma_at(j + 1);
                        }
                    }
                    assert(self@ =~= before@.remove(k@));
                }
            },
            None => {
                assert(self@ =~= before@.remove(k@));
            },
        }
    }
}

} // verus!
