//! A small map keyed by text, kept as a list of entries.
//!
//! The tables of the watcher hold a handful of paths each; a list that is
//! searched from the front serves them, and its contents can be stated
//! exactly.

use vstd::prelude::*;
use crate::text::same_text;

verus! {

/// A map from text to `V`. No key occurs twice.
pub struct TextMap<V> {
    keys: Vec<String>,
    values: Vec<V>,
}

impl<V> TextMap<V> {
    /// The keys, in the order of the entries.
    pub closed spec fn keys(&self) -> Seq<Seq<char>> {
        Seq::new(self.keys@.len(), |k: int| self.keys@[k]@)
    }

    /// The values, in the order of the entries.
    pub closed spec fn values(&self) -> Seq<V> {
        self.values@
    }

    /// The invariant of the type: one value per key, and no key twice.
    pub open spec fn wf(&self) -> bool {
        &&& self.keys().len() == self.values().len()
        &&& self.keys().no_duplicates()
    }

    /// The map that the entries stand for.
    pub open spec fn view(&self) -> Map<Seq<char>, V> {
        Map::new(
            |p: Seq<char>| self.keys().contains(p),
            |p: Seq<char>| self.values()[self.keys().index_of(p)],
        )
    }

    /// The entry at `at` is what the map holds under its key.
    pub proof fn lemma_entry(&self, at: int)
        requires
            self.wf(),
            0 <= at < self.keys().len(),
        ensures
            self@.dom().contains(self.keys()[at]),
            self@[self.keys()[at]] == self.values()[at],
    {
        let keys = self.keys();
        assert(keys.contains(keys[at]));
        assert(keys.index_of(keys[at]) == at);
    }

    /// Whatever the map holds is held by one of the entries.
    pub proof fn lemma_held(&self, key: Seq<char>)
        requires
            self.wf(),
            self@.dom().contains(key),
        ensures
            exists|at: int|
                0 <= at < self.keys().len() && #[trigger] self.keys()[at] == key
                    && self.values()[at] == self@[key],
    {
        let keys = self.keys();
        let at = keys.index_of(key);
        assert(keys[at] == key);
    }

    /// The map holds as many keys as there are entries.
    pub proof fn lemma_size(&self)
        requires
            self.wf(),
        ensures
            self@.dom().finite(),
            self@.dom().len() == self.keys().len(),
    {
        let keys = self.keys();
        assert(self@.dom() =~= keys.to_set());
        keys.unique_seq_to_set();
    }

    pub fn new() -> (m: TextMap<V>)
        ensures
            m.wf(),
            m.keys().len() == 0,
            m@ == Map::<Seq<char>, V>::empty(),
    {
        let m = TextMap { keys: Vec::new(), values: Vec::new() };
        assert(m@ =~= Map::<Seq<char>, V>::empty());
        m
    }

    pub fn len(&self) -> (n: usize)
        requires
            self.wf(),
        ensures
            n == self.keys().len(),
    {
        self.keys.len()
    }

    /// The position of the entry of `key`.
    pub fn find(&self, key: &str) -> (at: Option<usize>)
        requires
            self.wf(),
        ensures
            at matches Some(i) ==> i < self.keys().len() && self.keys()[i as int] == key@,
            at is None ==> !self.keys().contains(key@),
            at is Some == self@.dom().contains(key@),
    {
        let mut i: usize = 0;
        while i < self.keys.len()
            invariant
                i <= self.keys.len(),
                forall|k: int| 0 <= k < i ==> self.keys()[k] != key@,
            decreases self.keys.len() - i,
        {
            if same_text(self.keys[i].as_str(), key) {
                assert(self.keys()[i as int] == key@);
                return Some(i);
            }
            i = i + 1;
        }
        None
    }

    /// The value of the entry at `at`.
    pub fn value_at(&self, at: usize) -> (value: &V)
        requires
            self.wf(),
            at < self.keys().len(),
        ensures
            *value == self.values()[at as int],
            *value == self@[self.keys()[at as int]],
    {
        proof {
            self.lemma_entry(at as int);
        }
        &self.values[at]
    }

    /// The value held under `key`.
    pub fn get(&self, key: &str) -> (value: Option<&V>)
        requires
            self.wf(),
        ensures
            value is Some == self@.dom().contains(key@),
            value matches Some(v) ==> *v == self@[key@],
    {
        match self.find(key) {
            Some(at) => Some(self.value_at(at)),
            None => None,
        }
    }

    /// Replaces the value of the entry at `at`.
    pub fn set_at(&mut self, at: usize, value: V)
        requires
            old(self).wf(),
            at < old(self).keys().len(),
        ensures
            final(self).wf(),
            final(self).keys() == old(self).keys(),
            final(self).values() == old(self).values().update(at as int, value),
            final(self)@ == old(self)@.insert(old(self).keys()[at as int], value),
    {
        self.values.set(at, value);
        proof {
            let keys = self.keys();
            assert(keys =~= old(self).keys());
            assert(keys.index_of(keys[at as int]) == at);
            assert(self@ =~= old(self)@.insert(keys[at as int], value));
        }
    }

    /// Adds an entry for a key that the map does not hold.
    pub fn push(&mut self, key: &str, value: V)
        requires
            old(self).wf(),
            !old(self)@.dom().contains(key@),
        ensures
            final(self).wf(),
            final(self).keys() == old(self).keys().push(key@),
            final(self).values() == old(self).values().push(value),
            final(self)@ == old(self)@.insert(key@, value),
    {
        self.keys.push(key.to_owned());
        self.values.push(value);
        proof {
            let before = old(self).keys();
            let keys = self.keys();
            assert(keys =~= before.push(key@));
            assert forall|p: Seq<char>| before.contains(p) implies keys.index_of(p)
                == before.index_of(p) by {
                let i = before.index_of(p);
                assert(keys[i] == p);
                let j = keys.index_of(p);
                assert(keys.contains(p));
            }
            assert(keys.index_of(key@) == before.len()) by {
                assert(keys[before.len() as int] == key@);
            }
            assert forall|p: Seq<char>| keys.contains(p) <==> (before.contains(p) || p == key@) by {
                if keys.contains(p) {
                    let i = keys.index_of(p);
                    if i < before.len() {
                        assert(before[i] == p);
                    }
                }
                if before.contains(p) {
                    let i = before.index_of(p);
                    assert(keys[i] == p);
                }
                if p == key@ {
                    assert(keys[before.len() as int] == p);
                }
            }
            assert(self@ =~= old(self)@.insert(key@, value));
        }
    }

    /// Holds `value` under `key`, in place of what was held there.
    pub fn put(&mut self, key: &str, value: V)
        requires
            old(self).wf(),
        ensures
            final(self).wf(),
            final(self)@ == old(self)@.insert(key@, value),
    {
        match self.find(key) {
            Some(at) => self.set_at(at, value),
            None => self.push(key, value),
        }
    }

    /// Drops the entry at `at`.
    pub fn remove_at(&mut self, at: usize)
        requires
            old(self).wf(),
            at < old(self).keys().len(),
        ensures
            final(self).wf(),
            final(self).keys() == old(self).keys().remove(at as int),
            final(self).values() == old(self).values().remove(at as int),
            final(self)@ == old(self)@.remove(old(self).keys()[at as int]),
    {
        self.keys.remove(at);
        self.values.remove(at);
        proof {
            let before = old(self).keys();
            let gone = before[at as int];
            let keys = self.keys();
            assert(keys =~= before.remove(at as int));
            assert forall|i: int, j: int| 0 <= i < j < keys.len() implies keys[i] != keys[j] by {
                let a = if i < at { i } else { i + 1 };
                let b = if j < at { j } else { j + 1 };
                assert(keys[i] == before[a] && keys[j] == before[b]);
            }
            assert forall|p: Seq<char>| keys.contains(p) <==> (before.contains(p) && p != gone) by {
                if keys.contains(p) {
                    let i = keys.index_of(p);
                    let a = if i < at { i } else { i + 1 };
                    assert(before[a] == p);
                }
                if before.contains(p) && p != gone {
                    let a = before.index_of(p);
                    let i = if a < at { a } else { a - 1 };
                    assert(keys[i] == p);
                }
            }
            assert forall|p: Seq<char>| keys.contains(p) implies self.values()[keys.index_of(p)]
                == old(self).values()[before.index_of(p)] by {
                let i = keys.index_of(p);
                let a = if i < at { i } else { i + 1 };
                assert(before[a] == p);
                assert(before.index_of(p) == a);
            }
            assert(self@ =~= old(self)@.remove(gone));
        }
    }
}

} // verus!
