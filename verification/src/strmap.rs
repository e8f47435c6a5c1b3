//! Insertion-ordered maps and sets keyed by strings.

use vstd::prelude::*;
use crate::text::str_eq;

verus! {

/// Keys of the entries are pairwise distinct.
pub open spec fn distinct_keys<V>(s: Seq<(String, V)>) -> bool {
    forall|i: int, j: int| 0 <= i < s.len() && 0 <= j < s.len() && i != j ==> s[i].0@ != s[j].0@
}

/// The key `k` occurs among the entries.
pub open spec fn has_key<V>(s: Seq<(String, V)>, k: Seq<char>) -> bool {
    exists|i: int| 0 <= i < s.len() && s[i].0@ == k
}

/// The map that a list of entries with distinct keys stands for.
pub open spec fn entries_map<V>(s: Seq<(String, V)>) -> Map<Seq<char>, V> {
    Map::new(
        |k: Seq<char>| has_key(s, k),
        |k: Seq<char>| s[choose|i: int| 0 <= i < s.len() && s[i].0@ == k].1,
    )
}

/// A map from strings to values that remembers insertion order.
#[derive(Debug)]
pub struct StrMap<V> {
    entries: Vec<(String, V)>,
}

impl<V> View for StrMap<V> {
    type V = Map<Seq<char>, V>;

    open spec fn view(&self) -> Map<Seq<char>, V> {
        entries_map(self.spec_entries())
    }
}

impl<V> StrMap<V> {
    pub closed spec fn spec_entries(&self) -> Seq<(String, V)> {
        self.entries@
    }

    #[verifier::type_invariant]
    closed spec fn inv(&self) -> bool {
        distinct_keys(self.entries@)
    }

    /// The entries in insertion order.
    pub fn entries(&self) -> (r: &Vec<(String, V)>)
        ensures
            r@ == self.spec_entries(),
            distinct_keys(r@),
    {
        proof { use_type_invariant(self); }
        &self.entries
    }

    pub fn new() -> (r: Self)
        ensures
            r@ == Map::<Seq<char>, V>::empty(),
            r.spec_entries().len() == 0,
    {
        let r = StrMap { entries: Vec::new() };
        assert(r@ =~= Map::<Seq<char>, V>::empty());
        r
    }

    pub fn len(&self) -> (r: usize)
        ensures
            r == self.spec_entries().len(),
    {
        self.entries.len()
    }

    fn find(&self, k: &str) -> (r: Option<usize>)
        ensures
            match r {
                Some(i) => i < self.spec_entries().len() && self.spec_entries()[i as int].0@ == k@,
                None => !has_key(self.spec_entries(), k@),
            },
    {
        let mut i: usize = 0;
        while i < self.entries.len()
            invariant
                i <= self.entries@.len(),
                forall|j: int| 0 <= j < i ==> self.entries@[j].0@ != k@,
            decreases self.entries@.len() - i,
        {
            if str_eq(self.entries[i].0.as_str(), k) {
                return Some(i);
            }
            i = i + 1;
        }
        None
    }

    pub fn contains_key(&self, k: &str) -> (r: bool)
        ensures
            r == self@.contains_key(k@),
    {
        self.find(k).is_some()
    }

    pub fn get(&self, k: &str) -> (r: Option<&V>)
        ensures
            match r {
                Some(v) => self@.contains_key(k@) && *v == self@[k@],
                None => !self@.contains_key(k@),
            },
    {
        proof { use_type_invariant(self); }
        match self.find(k) {
            Some(i) => Some(&self.entries[i].1),
            None => None,
        }
    }

    /// Inserts or replaces the value of `k`; a new key goes last.
    pub fn insert(&mut self, k: String, v: V)
        ensures
            final(self)@ == old(self)@.insert(k@, v),
    {
        proof { use_type_invariant(&*self); }
        let ghost old_e = self.entries@;
        match self.find(k.as_str()) {
            Some(i) => {
                let mut e: Vec<(String, V)> = Vec::new();
                std::mem::swap(&mut e, &mut self.entries);
                e.set(i, (k, v));
                proof {
                    let ne = e@;
                    assert(distinct_keys(ne));
                    assert(entries_map(ne) =~= entries_map(old_e).insert(ne[i as int].0@, v)) by {
                        assert forall|key: Seq<char>| has_key(ne, key) <==> #[trigger] has_key(old_e, key) by {
                            if has_key(old_e, key) {
                                let j = choose|j: int| 0 <= j < old_e.len() && old_e[j].0@ == key;
                                assert(ne[j].0@ == key);
                            }
                            if has_key(ne, key) {
                                let j = choose|j: int| 0 <= j < ne.len() && ne[j].0@ == key;
                                assert(old_e[j].0@ == key);
                            }
                        }
                        assert forall|key: Seq<char>| #[trigger] has_key(ne, key) implies
                            entries_map(ne)[key] == entries_map(old_e).insert(ne[i as int].0@, v)[key] by {
                            let j = choose|j: int| 0 <= j < ne.len() && ne[j].0@ == key;
                            assert(old_e[j].0@ == key);
                            assert(has_key(old_e, key));
                        }
                    }
                }
                self.entries = e;
            },
            None => {
                let mut e: Vec<(String, V)> = Vec::new();
                std::mem::swap(&mut e, &mut self.entries);
                e.push((k, v));
                proof {
                    let ne = e@;
                    assert(distinct_keys(ne));
                    assert(entries_map(ne) =~= entries_map(old_e).insert(ne.last().0@, v)) by {
                        assert forall|key: Seq<char>| #[trigger] has_key(ne, key) implies
                            entries_map(ne)[key] == entries_map(old_e).insert(ne.last().0@, v)[key] by {
                            if key != ne.last().0@ {
                                let j = choose|j: int| 0 <= j < ne.len() && ne[j].0@ == key;
                                assert(0 <= j < old_e.len());
                                assert(has_key(old_e, key));
                            }
                        }
                        assert forall|key: Seq<char>| has_key(ne, key) <==> (#[trigger] has_key(old_e, key) || key == ne.last().0@) by {
                            if has_key(old_e, key) {
                                let j = choose|j: int| 0 <= j < old_e.len() && old_e[j].0@ == key;
                                assert(ne[j] == old_e[j]);
                            }
                            if has_key(ne, key) && key != ne.last().0@ {
                                let j = choose|j: int| 0 <= j < ne.len() && ne[j].0@ == key;
                                assert(ne[j] == old_e[j]);
                            }
                        }
                    }
                }
                self.entries = e;
            },
        }
    }
}

/// A set of strings that remembers insertion order.
#[derive(Debug)]
pub struct StrSet {
    map: StrMap<()>,
}

impl View for StrSet {
    type V = Set<Seq<char>>;

    open spec fn view(&self) -> Set<Seq<char>> {
        self.spec_map()@.dom()
    }
}

impl StrSet {
    pub closed spec fn spec_map(&self) -> StrMap<()> {
        self.map
    }

    /// The members in insertion order.
    pub open spec fn spec_items(&self) -> Seq<(String, ())> {
        self.spec_map().spec_entries()
    }

    pub fn new() -> (r: Self)
        ensures
            r@ == Set::<Seq<char>>::empty(),
            r.spec_items().len() == 0,
    {
        let r = StrSet { map: StrMap::new() };
        assert(r@ =~= Set::<Seq<char>>::empty());
        r
    }

    pub fn items(&self) -> (r: &Vec<(String, ())>)
        ensures
            r@ == self.spec_items(),
            distinct_keys(r@),
    {
        self.map.entries()
    }

    pub fn len(&self) -> (r: usize)
        ensures
            r == self.spec_items().len(),
    {
        self.map.len()
    }

    pub fn contains(&self, k: &str) -> (r: bool)
        ensures
            r == self@.contains(k@),
    {
        self.map.contains_key(k)
    }

    /// Adds `k`; returns whether it was absent.
    pub fn insert(&mut self, k: String) -> (r: bool)
        ensures
            final(self)@ == old(self)@.insert(k@),
            r == !old(self)@.contains(k@),
    {
        let fresh = !self.map.contains_key(k.as_str());
        self.map.insert(k, ());
        assert(self@ =~= old(self)@.insert(k@));
        fresh
    }
}

} // verus!
