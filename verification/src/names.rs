//! A small map keyed by text, which keeps its entries in the order in which
//! their keys first came: the directory of channels and the set of channels
//! that a session has joined are such maps.

use crate::text::str_eq;
use vstd::prelude::*;
use vstd::string::*;

verus! {

/// A map from names to values. No name occurs twice.
pub struct NameMap<V> {
    names: Vec<String>,
    values: Vec<V>,
}

/// The names of `names`, as texts.
pub open spec fn texts(names: Seq<String>) -> Seq<Seq<char>> {
    Seq::new(names.len(), |i: int| names[i]@)
}

impl<V> View for NameMap<V> {
    type V = Map<Seq<char>, V>;

    closed spec fn view(&self) -> Map<Seq<char>, V> {
        Map::new(
            |k: Seq<char>| texts(self.names@).contains(k),
            |k: Seq<char>| self.values@[texts(self.names@).index_of(k)],
        )
    }
}

impl<V> NameMap<V> {
    /// Every name has its value, and no name occurs twice.
    pub closed spec fn wf(&self) -> bool {
        &&& self.names@.len() == self.values@.len()
        &&& texts(self.names@).no_duplicates()
    }

    /// The names in the order in which they were first inserted.
    pub closed spec fn keys(&self) -> Seq<Seq<char>> {
        texts(self.names@)
    }

    /// The values, each at the place of its name in `keys`.
    pub closed spec fn values(&self) -> Seq<V> {
        self.values@
    }

    /// `keys` lists the domain of the map once each, and `values` holds what
    /// the map gives for them.
    pub proof fn lemma_keys(&self)
        requires
            self.wf(),
        ensures
            self.keys().no_duplicates(),
            self.keys().len() == self.values().len(),
            self@.dom() == self.keys().to_set(),
            self@.dom().finite(),
            self@.dom().len() == self.keys().len(),
            forall|i: int|
                0 <= i < self.keys().len() ==> self@.contains_key(#[trigger] self.keys()[i])
                    && self@[self.keys()[i]] == self.values()[i],
    {
        let keys = self.keys();
        assert(self@.dom() =~= keys.to_set());
        keys.unique_seq_to_set();
        assert forall|i: int| 0 <= i < keys.len() implies self@.contains_key(#[trigger] keys[i])
            && self@[keys[i]] == self.values()[i] by {
            assert(keys.contains(keys[i]));
            let j = keys.index_of(keys[i]);
            assert(keys[j] == keys[i]);
        }
    }

    /// A map without names.
    pub fn new() -> (m: Self)
        ensures
            m.wf(),
            m@ == Map::<Seq<char>, V>::empty(),
            m.keys() == Seq::<Seq<char>>::empty(),
    {
        let m = NameMap { names: Vec::new(), values: Vec::new() };
        assert(m@ =~= Map::<Seq<char>, V>::empty());
        assert(m.keys() =~= Seq::<Seq<char>>::empty());
        m
    }

    /// How many names the map has.
    pub fn len(&self) -> (n: usize)
        requires
            self.wf(),
        ensures
            n == self@.dom().len(),
            n == self.keys().len(),
    {
        proof {
            self.lemma_keys();
        }
        self.names.len()
    }

    /// Where `name` stands in `keys`, if it is a key.
    pub fn position(&self, name: &str) -> (r: Option<usize>)
        requires
            self.wf(),
        ensures
            match r {
                Some(i) => i < self.keys().len() && self.keys()[i as int] == name@
                    && self@.contains_key(name@) && self@[name@] == self.values()[i as int],
                None => !self@.contains_key(name@) && !self.keys().contains(name@),
            },
    {
        proof {
            self.lemma_keys();
        }
        let mut i: usize = 0;
        while i < self.names.len()
            invariant
                self.wf(),
                i <= self.names@.len(),
                self.keys().len() == self.names@.len(),
                forall|j: int| 0 <= j < i ==> (#[trigger] self.keys()[j]) != name@,
            decreases self.names@.len() - i,
        {
            assert(self.keys()[i as int] == self.names@[i as int]@);
            if str_eq(self.names[i].as_str(), name) {
                proof {
                    self.lemma_keys();
                }
                return Some(i);
            }
            i = i + 1;
        }
        None
    }

    /// Whether `name` has a value.
    pub fn contains_key(&self, name: &str) -> (r: bool)
        requires
            self.wf(),
        ensures
            r == self@.contains_key(name@),
    {
        self.position(name).is_some()
    }

    /// The value of `name`, if it has one.
    pub fn get(&self, name: &str) -> (r: Option<&V>)
        requires
            self.wf(),
        ensures
            match r {
                Some(v) => self@.contains_key(name@) && *v == self@[name@],
                None => !self@.contains_key(name@),
            },
    {
        match self.position(name) {
            Some(i) => Some(&self.values[i]),
            None => None,
        }
    }

    /// The name at place `i` of `keys`.
    pub fn name_at(&self, i: usize) -> (r: &String)
        requires
            self.wf(),
            i < self.keys().len(),
        ensures
            r@ == self.keys()[i as int],
    {
        &self.names[i]
    }

    /// The value at place `i` of `values`.
    pub fn value_at(&self, i: usize) -> (r: &V)
        requires
            self.wf(),
            i < self.keys().len(),
        ensures
            *r == self.values()[i as int],
    {
        &self.values[i]
    }

    /// Gives `name` the value `value`. A new name comes last in `keys`; one
    /// that is there keeps its place.
    pub fn insert(&mut self, name: String, value: V)
        requires
            old(self).wf(),
        ensures
            final(self).wf(),
            final(self)@ == old(self)@.insert(name@, value),
            final(self).keys() == if old(self)@.contains_key(name@) {
                old(self).keys()
            } else {
                old(self).keys().push(name@)
            },
    {
        proof {
            self.lemma_keys();
        }
        let ghost before = *self;
        match self.position(name.as_str()) {
            Some(i) => {
                self.values[i] = value;
                proof {
                    assert(self.keys() == before.keys());
                    assert forall|k: Seq<char>| self@.contains_key(k) implies #[trigger] self@[k]
                        == before@.insert(name@, value)[k] by {
                        let j = self.keys().index_of(k);
                        assert(self.keys()[j] == k);
                    }
                    assert(self@ =~= before@.insert(name@, value));
                }
            },
            None => {
                self.names.push(name);
                self.values.push(value);
                proof {
                    let keys = self.keys();
                    assert(keys =~= before.keys().push(name@));
                    assert forall|i: int, j: int|
                        0 <= i < keys.len() && 0 <= j < keys.len() && i != j implies keys[i]
                        != keys[j] by {
                        if i < before.keys().len() {
                            assert(before.keys()[i] == keys[i]);
                        }
                        if j < before.keys().len() {
                            assert(before.keys()[j] == keys[j]);
                        }
                    }
                    assert forall|k: Seq<char>| keys.contains(k) <==> (before.keys().contains(k)
                        || k == name@) by {
                        if before.keys().contains(k) {
                            let j = before.keys().index_of(k);
                            assert(keys[j] == k);
                        }
                        if k == name@ {
                            assert(keys[keys.len() - 1] == k);
                        }
                    }
                    assert forall|k: Seq<char>| self@.contains_key(k) implies #[trigger] self@[k]
                        == before@.insert(name@, value)[k] by {
                        let j = keys.index_of(k);
                        assert(keys[j] == k);
                        if k != name@ {
                            let j0 = before.keys().index_of(k);
                            assert(before.keys()[j0] == k);
                            assert(keys[j0] == k);
                        } else {
                            assert(keys[keys.len() - 1] == k);
                        }
                    }
                    assert(self@ =~= before@.insert(name@, value));
                }
            },
        }
    }

    /// Takes `name` and its value out; the other names keep their order.
    pub fn remove(&mut self, name: &str) -> (r: Option<V>)
        requires
            old(self).wf(),
        ensures
            final(self).wf(),
            final(self)@ == old(self)@.remove(name@),
            final(self).keys() == if old(self)@.contains_key(name@) {
                old(self).keys().remove(old(self).keys().index_of(name@))
            } else {
                old(self).keys()
            },
            match r {
                Some(v) => old(self)@.contains_key(name@) && v == old(self)@[name@],
                None => !old(self)@.contains_key(name@),
            },
    {
        proof {
            self.lemma_keys();
        }
        let ghost before = *self;
        match self.position(name) {
            Some(i) => {
                self.names.remove(i);
                let v = self.values.remove(i);
                proof {
                    let old_keys = before.keys();
                    let keys = self.keys();
                    assert(keys =~= old_keys.remove(i as int));
                    assert forall|a: int, b: int|
                        0 <= a < keys.len() && 0 <= b < keys.len() && a != b implies keys[a]
                        != keys[b] by {
                        let a0 = if a < i { a } else { a + 1 };
                        let b0 = if b < i { b } else { b + 1 };
                        assert(old_keys[a0] == keys[a] && old_keys[b0] == keys[b]);
                    }
                    assert forall|k: Seq<char>| keys.contains(k) <==> (old_keys.contains(k) && k
                        != name@) by {
                        if keys.contains(k) {
                            let a = keys.index_of(k);
                            assert(keys[a] == k);
                            let a0 = if a < i { a } else { a + 1 };
                            assert(old_keys[a0] == k);
                        }
                        if old_keys.contains(k) && k != name@ {
                            let a0 = old_keys.index_of(k);
                            assert(old_keys[a0] == k);
                            let a = if a0 < i { a0 } else { a0 - 1 };
                            assert(keys[a] == k);
                        }
                    }
                    assert forall|k: Seq<char>| self@.contains_key(k) implies #[trigger] self@[k]
                        == before@[k] by {
                        let a = keys.index_of(k);
                        assert(keys[a] == k);
                        let a0 = if a < i { a } else { a + 1 };
                        assert(old_keys[a0] == k);
                        let b0 = old_keys.index_of(k);
                        assert(old_keys[b0] == k);
                    }
                    assert(self@ =~= before@.remove(name@));
                    let at = old_keys.index_of(name@);
                    assert(old_keys[at] == name@);
                    assert(at == i);
                }
                Some(v)
            },
            None => {
                proof {
                    assert(self@ =~= before@.remove(name@));
                }
                None
            },
        }
    }
}

} // verus!
