use vstd::prelude::*;

verus! {

/// A small map from names to values that keeps the order in which the names
/// came in. No name occurs twice.
#[verifier::reject_recursive_types(V)]
pub struct Table<V> {
    entries: Vec<(String, V)>,
}

impl<V> Table<V> {
    /// The names, in the order in which they came in.
    pub closed spec fn keys(&self) -> Seq<Seq<char>> {
        Seq::new(self.entries@.len(), |i: int| self.entries@[i].0@)
    }

    /// The values, each at the place of its name.
    pub closed spec fn values(&self) -> Seq<V> {
        Seq::new(self.entries@.len(), |i: int| self.entries@[i].1)
    }

    /// No name occurs twice.
    pub open spec fn wf(&self) -> bool {
        &&& self.keys().no_duplicates()
        &&& self.keys().len() == self.values().len()
    }

    /// Whether the name is in the table.
    pub open spec fn has(&self, key: Seq<char>) -> bool {
        self.keys().contains(key)
    }

    /// The value under a name that is in the table.
    pub open spec fn at(&self, key: Seq<char>) -> V {
        self.values()[self.keys().index_of(key)]
    }

    /// The table as a map.
    pub open spec fn view(&self) -> Map<Seq<char>, V> {
        Map::new(|k: Seq<char>| self.has(k), |k: Seq<char>| self.at(k))
    }

    /// There are as many values as names.
    pub proof fn lemma_len(&self)
        ensures
            self.keys().len() == self.values().len(),
    {
    }

    /// In a table without repeated names, the place of a name is its index.
    pub proof fn lemma_index(&self, i: int)
        requires
            self.wf(),
            0 <= i < self.keys().len(),
        ensures
            self.has(self.keys()[i]),
            self.keys().index_of(self.keys()[i]) == i,
            self.at(self.keys()[i]) == self.values()[i],
    {
        let k = self.keys()[i];
        assert(self.keys().contains(k));
        let j = self.keys().index_of(k);
        assert(self.keys()[j] == k);
    }

    pub fn new() -> (t: Self)
        ensures
            t.wf(),
            t.keys() == Seq::<Seq<char>>::empty(),
            t.values() == Seq::<V>::empty(),
            t@ == Map::<Seq<char>, V>::empty(),
    {
        let t = Table { entries: Vec::new() };
        assert(t.keys() =~= Seq::<Seq<char>>::empty());
        assert(t.values() =~= Seq::<V>::empty());
        assert(t@ =~= Map::<Seq<char>, V>::empty());
        t
    }

    pub fn len(&self) -> (n: usize)
        ensures
            n == self.keys().len(),
            n == self.values().len(),
    {
        self.entries.len()
    }

    /// The name at a place.
    pub fn key(&self, i: usize) -> (k: &String)
        requires
            i < self.keys().len(),
        ensures
            k@ == self.keys()[i as int],
    {
        &self.entries[i].0
    }

    /// The value at a place.
    pub fn value(&self, i: usize) -> (v: &V)
        requires
            i < self.values().len(),
        ensures
            *v == self.values()[i as int],
    {
        &self.entries[i].1
    }

    /// The value at a place, to be changed where it stands.
    pub fn value_mut(&mut self, i: usize) -> (v: &mut V)
        requires
            i < old(self).values().len(),
        ensures
            *v == old(self).values()[i as int],
            final(self).keys() == old(self).keys(),
            final(self).values() == old(self).values().update(i as int, *final(v)),
    {
        let entry = &mut self.entries[i];
        &mut entry.1
    }

    /// The place of a name, if it is in the table.
    pub fn position(&self, key: &String) -> (r: Option<usize>)
        ensures
            r is Some <==> self.has(key@),
            r matches Some(i) ==> i < self.keys().len() && self.keys()[i as int] == key@,
            self.wf() ==> (r matches Some(i) ==> i == self.keys().index_of(key@)),
    {
        let mut i: usize = 0;
        while i < self.entries.len()
            invariant
                i <= self.entries.len(),
                forall|j: int| 0 <= j < i ==> self.keys()[j] != key@,
            decreases self.entries.len() - i,
        {
            if self.entries[i].0 == *key {
                assert(self.keys()[i as int] == key@);
                proof {
                    if self.wf() {
                        self.lemma_index(i as int);
                    }
                }
                return Some(i);
            }
            i += 1;
        }
        None
    }

    /// Whether the name is in the table.
    pub fn contains_key(&self, key: &String) -> (r: bool)
        ensures
            r == self.has(key@),
    {
        self.position(key).is_some()
    }

    /// The value under a name, if the name is in the table.
    pub fn get(&self, key: &String) -> (r: Option<&V>)
        requires
            self.wf(),
        ensures
            r is Some <==> self.has(key@),
            r matches Some(v) ==> *v == self.at(key@),
    {
        match self.position(key) {
            Some(i) => Some(&self.entries[i].1),
            None => None,
        }
    }

    /// Puts a value under a name that is not yet in the table, at the end.
    pub fn push(&mut self, key: String, value: V)
        requires
            old(self).wf(),
            !old(self).has(key@),
        ensures
            final(self).wf(),
            final(self).keys() == old(self).keys().push(key@),
            final(self).values() == old(self).values().push(value),
            final(self)@ == old(self)@.insert(key@, value),
            final(self).has(key@),
            final(self).at(key@) == value,
            forall|k: Seq<char>|
                #![trigger final(self).has(k)]
                k != key@ ==> (final(self).has(k) == old(self).has(k))
                    && (old(self).has(k) ==> final(self).at(k) == old(self).at(k)),
    {
        let ghost before = *self;
        self.entries.push((key, value));
        assert(self.keys() =~= before.keys().push(key@));
        assert(self.values() =~= before.values().push(value));
        proof {
            assert forall|k: Seq<char>| #[trigger] self.has(k) implies self.at(k)
                == before@.insert(key@, value)[k] by {
                let i = self.keys().index_of(k);
                self.lemma_index(i);
                if i < before.keys().len() {
                    before.lemma_index(i);
                }
            }
            assert forall|k: Seq<char>| before@.insert(key@, value).dom().contains(k)
                implies #[trigger] self.has(k) by {
                if k == key@ {
                    assert(self.keys()[before.keys().len() as int] == k);
                } else {
                    let i = before.keys().index_of(k);
                    assert(self.keys()[i] == k);
                }
            }
            assert(self@ =~= before@.insert(key@, value));
            assert(self.keys()[before.keys().len() as int] == key@);
            self.lemma_index(before.keys().len() as int);
            assert forall|k: Seq<char>| k != key@ implies (#[trigger] self.has(k) == before.has(k))
                && (before.has(k) ==> self.at(k) == before.at(k)) by {
                if before.has(k) {
                    let i = before.keys().index_of(k);
                    assert(self.keys()[i] == k);
                    self.lemma_index(i);
                    before.lemma_index(i);
                }
                if self.has(k) {
                    let i = self.keys().index_of(k);
                    assert(before.keys()[i] == k);
                }
            }
        }
    }

    /// Replaces the value at a place and returns the one that was there.
    pub fn replace(&mut self, i: usize, value: V) -> (was: V)
        requires
            old(self).wf(),
            i < old(self).keys().len(),
        ensures
            final(self).wf(),
            final(self).keys() == old(self).keys(),
            final(self).values() == old(self).values().update(i as int, value),
            final(self)@ == old(self)@.insert(old(self).keys()[i as int], value),
            was == old(self).values()[i as int],
            final(self).at(old(self).keys()[i as int]) == value,
            forall|k: Seq<char>|
                k != old(self).keys()[i as int] && #[trigger] old(self).has(k) ==> final(self).at(k)
                    == old(self).at(k),
    {
        let ghost before = *self;
        let (key, was) = self.entries.remove(i);
        let ghost k0 = key@;
        self.entries.insert(i, (key, value));
        assert(self.keys() =~= before.keys());
        assert(self.values() =~= before.values().update(i as int, value));
        proof {
            assert(k0 == before.keys()[i as int]);
            before.lemma_index(i as int);
            assert forall|k: Seq<char>| #[trigger] self.has(k) implies self.at(k)
                == before@.insert(k0, value)[k] by {
                let j = self.keys().index_of(k);
                self.lemma_index(j);
                before.lemma_index(j);
                if k == k0 {
                    assert(j == i);
                } else {
                    assert(before.has(k));
                    assert(before@[k] == before.at(k));
                }
            }
            assert forall|k: Seq<char>| before@.insert(k0, value).dom().contains(k)
                implies #[trigger] self.has(k) by {
                if k != k0 {
                    assert(before.has(k));
                }
            }
            assert(self@ =~= before@.insert(k0, value));
            self.lemma_index(i as int);
            assert forall|k: Seq<char>| k != k0 && #[trigger] before.has(k) implies self.at(k)
                == before.at(k) by {
                let j = before.keys().index_of(k);
                self.lemma_index(j);
                before.lemma_index(j);
            }
        }
        was
    }

    /// Takes the entry at a place out of the table. The entries behind it
    /// move up by one.
    pub fn remove_at(&mut self, i: usize) -> (r: (String, V))
        requires
            old(self).wf(),
            i < old(self).keys().len(),
        ensures
            final(self).wf(),
            final(self).keys() == old(self).keys().remove(i as int),
            final(self).values() == old(self).values().remove(i as int),
            final(self)@ == old(self)@.remove(old(self).keys()[i as int]),
            r.0@ == old(self).keys()[i as int],
            r.1 == old(self).values()[i as int],
            !final(self).has(r.0@),
            forall|k: Seq<char>|
                #![trigger final(self).has(k)]
                k != old(self).keys()[i as int] ==> (final(self).has(k) == old(self).has(k))
                    && (old(self).has(k) ==> final(self).at(k) == old(self).at(k)),
    {
        let ghost before = *self;
        let r = self.entries.remove(i);
        assert(self.keys() =~= before.keys().remove(i as int));
        assert(self.values() =~= before.values().remove(i as int));
        proof {
            let k0 = before.keys()[i as int];
            assert forall|j: int| 0 <= j < self.keys().len() implies #[trigger] self.keys()[j]
                != k0 by {
                if j < i {
                    assert(self.keys()[j] == before.keys()[j]);
                } else {
                    assert(self.keys()[j] == before.keys()[j + 1]);
                }
            }
            assert(!self.has(k0));
            assert forall|a: int, b: int|
                0 <= a < self.keys().len() && 0 <= b < self.keys().len() && a != b
                implies self.keys()[a] != self.keys()[b] by {
                let a1 = if a < i { a } else { a + 1 };
                let b1 = if b < i { b } else { b + 1 };
                assert(self.keys()[a] == before.keys()[a1]);
                assert(self.keys()[b] == before.keys()[b1]);
            }
            assert forall|k: Seq<char>| #[trigger] self.has(k) implies before.has(k) && k != k0
                && self.at(k) == before.at(k) by {
                let j = self.keys().index_of(k);
                self.lemma_index(j);
                let j1 = if j < i { j } else { j + 1 };
                assert(before.keys()[j1] == k);
                before.lemma_index(j1);
            }
            assert forall|k: Seq<char>| before.has(k) && k != k0 implies #[trigger] self.has(k) by {
                let j = before.keys().index_of(k);
                let j1 = if j < i { j } else { j - 1 };
                assert(self.keys()[j1] == k);
            }
            assert(self@ =~= before@.remove(k0));
        }
        r
    }

    /// Takes the value under a name out of the table, if the name is there.
    pub fn remove(&mut self, key: &String) -> (r: Option<V>)
        requires
            old(self).wf(),
        ensures
            final(self).wf(),
            r is Some <==> old(self).has(key@),
            r matches Some(v) ==> v == old(self).at(key@),
            final(self)@ == old(self)@.remove(key@),
            !final(self).has(key@),
            forall|k: Seq<char>|
                #![trigger final(self).has(k)]
                k != key@ ==> (final(self).has(k) == old(self).has(k))
                    && (old(self).has(k) ==> final(self).at(k) == old(self).at(k)),
            r is None ==> final(self).keys() == old(self).keys()
                && final(self).values() == old(self).values(),
            r is Some ==> final(self).keys() == old(self).keys().remove(
                old(self).keys().index_of(key@),
            ) && final(self).values() == old(self).values().remove(
                old(self).keys().index_of(key@),
            ),
    {
        match self.position(key) {
            Some(i) => {
                proof {
                    self.lemma_index(i as int);
                }
                let (_, v) = self.remove_at(i);
                Some(v)
            },
            None => {
                assert(self@.remove(key@) =~= self@);
                None
            },
        }
    }

    /// Puts a value under a name. A value that was there before is replaced
    /// and returned; a new name goes to the end.
    pub fn insert(&mut self, key: String, value: V) -> (was: Option<V>)
        requires
            old(self).wf(),
        ensures
            final(self).wf(),
            final(self)@ == old(self)@.insert(key@, value),
            was is Some <==> old(self).has(key@),
            was matches Some(v) ==> v == old(self).at(key@),
            final(self).has(key@),
            final(self).at(key@) == value,
            forall|k: Seq<char>|
                #![trigger final(self).has(k)]
                k != key@ ==> (final(self).has(k) == old(self).has(k))
                    && (old(self).has(k) ==> final(self).at(k) == old(self).at(k)),
            old(self).has(key@) ==> final(self).keys() == old(self).keys() && final(self).values()
                == old(self).values().update(old(self).keys().index_of(key@), value),
            !old(self).has(key@) ==> final(self).keys() == old(self).keys().push(key@)
                && final(self).values() == old(self).values().push(value),
    {
        match self.position(&key) {
            Some(i) => {
                proof {
                    self.lemma_index(i as int);
                }
                Some(self.replace(i, value))
            },
            None => {
                self.push(key, value);
                None
            },
        }
    }
}

} // verus!
