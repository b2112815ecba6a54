//! A small map keyed by names, with a map view.

use vstd::prelude::*;
use crate::text::str_eq;

verus! {

/// A finite map from names to small values; each name appears at most once.
/// Iteration order is insertion order.
#[derive(Debug, PartialEq, Eq)]
pub struct NameMap<V> {
    entries: Vec<(String, V)>,
}

impl<V> NameMap<V> {
    /// No app name occurs twice.
    #[verifier::type_invariant]
    spec fn distinct_keys(self) -> bool {
        forall|i: int, j: int|
            0 <= i < j < self.entries@.len() ==> #[trigger] self.entries@[i].0@ != #[trigger] self.entries@[j].0@
    }

    spec fn has_key_at(self, k: Seq<char>, i: int) -> bool {
        0 <= i < self.entries@.len() && self.entries@[i].0@ == k
    }

}

impl<V: Copy> NameMap<V> {
    proof fn lemma_lookup(self, k: Seq<char>, i: int)
        requires
            self.distinct_keys(),
            self.has_key_at(k, i),
        ensures
            self@.contains_key(k),
            self@[k] == self.entries@[i].1,
    {
        assert(self.has_key_at(k, i));
        let j = choose|j: int| self.has_key_at(k, j);
        if j < i {
            assert(self.entries@[j].0@ != self.entries@[i].0@);
        } else if i < j {
            assert(self.entries@[i].0@ != self.entries@[j].0@);
        }
    }

    proof fn lemma_absent(self, k: Seq<char>)
        requires
            forall|i: int| 0 <= i < self.entries@.len() ==> self.entries@[i].0@ != k,
        ensures
            !self@.contains_key(k),
    {
    }

    /// An empty map.
    pub fn new() -> (m: Self)
        ensures
            m@ == Map::<Seq<char>, V>::empty(),
    {
        let m = NameMap { entries: Vec::new() };
        assert(m@ =~= Map::<Seq<char>, V>::empty());
        m
    }

    fn find(&self, k: &str) -> (r: Option<usize>)
        ensures
            match r {
                Some(i) => self.has_key_at(k@, i as int),
                None => forall|i: int| 0 <= i < self.entries@.len() ==> self.entries@[i].0@ != k@,
            },
    {
        let mut i: usize = 0;
        while i < self.entries.len()
            invariant
                i <= self.entries@.len(),
                forall|j: int| 0 <= j < i ==> self.entries@[j].0@ != k@,
            decreases self.entries.len() - i,
        {
            if str_eq(self.entries[i].0.as_str(), k) {
                return Some(i);
            }
            i = i + 1;
        }
        None
    }

    /// The value for `k`, if `k` has one.
    pub fn get(&self, k: &str) -> (r: Option<V>)
        ensures
            r == (if self@.contains_key(k@) { Some(self@[k@]) } else { None::<V> }),
    {
        proof {
            use_type_invariant(self);
        }
        match self.find(k) {
            Some(i) => {
                proof {
                    self.lemma_lookup(k@, i as int);
                }
                Some(self.entries[i].1)
            },
            None => None,
        }
    }

    /// Set the value for `k`, returning the one it replaced.
    pub fn insert(&mut self, k: String, v: V) -> (r: Option<V>)
        ensures
            final(self)@ == old(self)@.insert(k@, v),
            r == (if old(self)@.contains_key(k@) { Some(old(self)@[k@]) } else { None::<V> }),
    {
        proof {
            use_type_invariant(&*self);
        }
        let ghost old_m = self@;
        let ghost old_e = self.entries@;
        match self.find(k.as_str()) {
            Some(i) => {
                proof {
                    self.lemma_lookup(k@, i as int);
                }
                let prev = self.entries[i].1;
                let ghost kv = k@;
                let mut entries: Vec<(String, V)> = Vec::new();
                std::mem::swap(&mut entries, &mut self.entries);
                entries.set(i, (k, v));
                assert forall|a: int, b: int| 0 <= a < b < entries@.len() implies
                    #[trigger] entries@[a].0@ != #[trigger] entries@[b].0@ by {
                    assert(old_e[a].0@ != old_e[b].0@);
                }
                self.entries = entries;
                proof {
                    let m = self@;
                    assert forall|q: Seq<char>| #[trigger] m.contains_key(q) == old_m.insert(kv, v).contains_key(q) by {
                        if old_m.contains_key(q) {
                            let j = choose|j: int| old(self).has_key_at(q, j);
                            assert(self.has_key_at(q, j));
                        }
                        if m.contains_key(q) {
                            let j = choose|j: int| self.has_key_at(q, j);
                            if j != i {
                                assert(old(self).has_key_at(q, j));
                            }
                        }
                    }
                    assert forall|q: Seq<char>| m.contains_key(q) implies #[trigger] m[q] == old_m.insert(kv, v)[q] by {
                        let j = choose|j: int| self.has_key_at(q, j);
                        self.lemma_lookup(q, j);
                        if j != i {
                            old(self).lemma_lookup(q, j);
                        }
                    }
                    assert(m =~= old_m.insert(kv, v));
                }
                Some(prev)
            },
            None => {
                let ghost kv = k@;
                proof {
                    self.lemma_absent(kv);
                }
                let mut entries: Vec<(String, V)> = Vec::new();
                std::mem::swap(&mut entries, &mut self.entries);
                entries.push((k, v));
                assert forall|a: int, b: int| 0 <= a < b < entries@.len() implies
                    #[trigger] entries@[a].0@ != #[trigger] entries@[b].0@ by {
                    if b < old_e.len() {
                        assert(old_e[a].0@ != old_e[b].0@);
                    }
                }
                self.entries = entries;
                proof {
                    let m = self@;
                    let n = old_e.len() as int;
                    assert(self.has_key_at(kv, n));
                    assert forall|q: Seq<char>| #[trigger] m.contains_key(q) == old_m.insert(kv, v).contains_key(q) by {
                        if old_m.contains_key(q) {
                            let j = choose|j: int| old(self).has_key_at(q, j);
                            assert(self.has_key_at(q, j));
                        }
                        if m.contains_key(q) {
                            let j = choose|j: int| self.has_key_at(q, j);
                            if j != n {
                                assert(old(self).has_key_at(q, j));
                            }
                        }
                    }
                    assert forall|q: Seq<char>| m.contains_key(q) implies #[trigger] m[q] == old_m.insert(kv, v)[q] by {
                        let j = choose|j: int| self.has_key_at(q, j);
                        self.lemma_lookup(q, j);
                        if j != n {
                            old(self).lemma_lookup(q, j);
                        }
                    }
                    assert(m =~= old_m.insert(kv, v));
                }
                None
            },
        }
    }

    /// Remove the value for `k`, returning it if there was one.
    pub fn remove(&mut self, k: &str) -> (r: Option<V>)
        ensures
            final(self)@ == old(self)@.remove(k@),
            r == (if old(self)@.contains_key(k@) { Some(old(self)@[k@]) } else { None::<V> }),
    {
        proof {
            use_type_invariant(&*self);
        }
        let ghost old_m = self@;
        match self.find(k) {
            Some(i) => {
                proof {
                    self.lemma_lookup(k@, i as int);
                }
                let prev = self.entries[i].1;
                let mut entries: Vec<(String, V)> = Vec::new();
                std::mem::swap(&mut entries, &mut self.entries);
                let ghost e0 = entries@;
                entries.remove(i);
                assert forall|a: int, b: int| 0 <= a < b < entries@.len() implies
                    #[trigger] entries@[a].0@ != #[trigger] entries@[b].0@ by {
                    let a2 = if a < i { a } else { a + 1 };
                    let b2 = if b < i { b } else { b + 1 };
                    assert(e0[a2].0@ != e0[b2].0@);
                }
                self.entries = entries;
                proof {
                    let m = self@;
                    assert forall|a: int| 0 <= a < self.entries@.len() implies #[trigger] self.entries@[a]
                        == e0[if a < i { a } else { a + 1 }] by {}
                    assert forall|q: Seq<char>| #[trigger] m.contains_key(q) == old_m.remove(k@).contains_key(q) by {
                        if old_m.contains_key(q) && q != k@ {
                            let j = choose|j: int| old(self).has_key_at(q, j);
                            assert(j != i);
                            let a = if j < i { j } else { j - 1 };
                            assert(self.has_key_at(q, a));
                        }
                        if m.contains_key(q) {
                            let a = choose|a: int| self.has_key_at(q, a);
                            let j = if a < i { a } else { a + 1 };
                            assert(old(self).has_key_at(q, j));
                            if q == k@ {
                                if j < i {
                                    assert(e0[j].0@ != e0[i as int].0@);
                                } else {
                                    assert(e0[i as int].0@ != e0[j].0@);
                                }
                            }
                        }
                    }
                    assert forall|q: Seq<char>| m.contains_key(q) implies #[trigger] m[q] == old_m.remove(k@)[q] by {
                        let a = choose|a: int| self.has_key_at(q, a);
                        self.lemma_lookup(q, a);
                        let j = if a < i { a } else { a + 1 };
                        assert(old(self).has_key_at(q, j));
                        old(self).lemma_lookup(q, j);
                    }
                    assert(m =~= old_m.remove(k@));
                }
                Some(prev)
            },
            None => {
                proof {
                    self.lemma_absent(k@);
                    assert(old_m.remove(k@) =~= old_m);
                }
                None
            },
        }
    }

    /// Number of names.
    pub fn len(&self) -> (n: usize)
        ensures
            n == self@.len(),
    {
        proof {
            use_type_invariant(self);
            self.lemma_len();
        }
        self.entries.len()
    }

    proof fn lemma_len(self)
        requires
            self.distinct_keys(),
        ensures
            self@.len() == self.entries@.len(),
    {
        let keys = self.entries@.map_values(|e: (String, V)| e.0@);
        assert(keys.no_duplicates()) by {
            assert forall|i: int, j: int| 0 <= i < keys.len() && 0 <= j < keys.len() && i != j implies keys[i] != keys[j] by {
                if i < j {
                    assert(self.entries@[i].0@ != self.entries@[j].0@);
                } else {
                    assert(self.entries@[j].0@ != self.entries@[i].0@);
                }
            }
        }
        assert(self@.dom() =~= keys.to_set()) by {
            assert forall|q: Seq<char>| self@.dom().contains(q) == keys.to_set().contains(q) by {
                if self@.dom().contains(q) {
                    let j = choose|j: int| self.has_key_at(q, j);
                    assert(keys[j] == q);
                }
                if keys.to_set().contains(q) {
                    let j = choose|j: int| 0 <= j < keys.len() && keys[j] == q;
                    assert(self.has_key_at(q, j));
                }
            }
        }
        keys.unique_seq_to_set();
    }

    /// Whether the map is empty.
    pub fn is_empty(&self) -> (b: bool)
        ensures
            b == (self@.len() == 0),
    {
        self.len() == 0
    }

    /// All `(name, value)` pairs, in insertion order.
    pub fn to_vec(&self) -> (v: Vec<(String, V)>)
        ensures
            v@.len() == self@.len(),
            forall|i: int| 0 <= i < v@.len() ==> self@.contains_key(#[trigger] v@[i].0@) && self@[v@[i].0@] == v@[i].1,
            forall|k: Seq<char>| #[trigger] self@.contains_key(k) ==> exists|i: int| 0 <= i < v@.len() && v@[i].0@ == k,
    {
        proof {
            use_type_invariant(self);
            self.lemma_len();
        }
        let mut v: Vec<(String, V)> = Vec::new();
        let mut i: usize = 0;
        while i < self.entries.len()
            invariant
                self.distinct_keys(),
                i <= self.entries@.len(),
                v@.len() == i,
                forall|j: int| 0 <= j < i ==> #[trigger] v@[j] == self.entries@[j],
            decreases self.entries.len() - i,
        {
            let e = (self.entries[i].0.clone(), self.entries[i].1);
            v.push(e);
            i = i + 1;
        }
        proof {
            assert forall|j: int| 0 <= j < v@.len() implies self@.contains_key(#[trigger] v@[j].0@) && self@[v@[j].0@] == v@[j].1 by {
                assert(self.has_key_at(v@[j].0@, j));
                self.lemma_lookup(v@[j].0@, j);
            }
            assert forall|k: Seq<char>| #[trigger] self@.contains_key(k) implies exists|j: int| 0 <= j < v@.len() && v@[j].0@ == k by {
                let j = choose|j: int| self.has_key_at(k, j);
                assert(v@[j].0@ == k);
            }
        }
        v
    }
}

impl<V> View for NameMap<V> {
    type V = Map<Seq<char>, V>;

    closed spec fn view(&self) -> Map<Seq<char>, V> {
        Map::new(
            |k: Seq<char>| exists|i: int| self.has_key_at(k, i),
            |k: Seq<char>| self.entries@[choose|i: int| self.has_key_at(k, i)].1,
        )
    }
}

impl<V: Copy> Clone for NameMap<V> {
    fn clone(&self) -> (r: Self)
        ensures
            r@ == self@,
    {
        proof {
            use_type_invariant(self);
        }
        let mut v: Vec<(String, V)> = Vec::new();
        let mut i: usize = 0;
        while i < self.entries.len()
            invariant
                i <= self.entries@.len(),
                v@.len() == i,
                forall|j: int| 0 <= j < i ==> #[trigger] v@[j] == self.entries@[j],
            decreases self.entries.len() - i,
        {
            v.push((self.entries[i].0.clone(), self.entries[i].1));
            i = i + 1;
        }
        assert(v@ =~= self.entries@);
        let r = NameMap { entries: v };
        assert(r@ =~= self@) by {
            assert forall|q: Seq<char>| r@.contains_key(q) == self@.contains_key(q) by {
                if r@.contains_key(q) {
                    let j = choose|j: int| r.has_key_at(q, j);
                    assert(self.has_key_at(q, j));
                }
                if self@.contains_key(q) {
                    let j = choose|j: int| self.has_key_at(q, j);
                    assert(r.has_key_at(q, j));
                }
            }
        }
        r
    }
}

impl<V: Copy> Default for NameMap<V> {
    fn default() -> (m: Self)
        ensures
            m@ == Map::<Seq<char>, V>::empty(),
    {
        NameMap::new()
    }
}

} // verus!
