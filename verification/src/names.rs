//! A map from names to values that keeps the order in which names came.
use vstd::prelude::*;

use crate::text;

verus! {

/// No two entries have the same name.
pub open spec fn distinct<V>(e: Seq<(String, V)>) -> bool {
    forall|i: int, j: int| 0 <= i < j < e.len() ==> #[trigger] e[i].0@ != #[trigger] e[j].0@
}

/// Some entry has the name `k`.
pub open spec fn named<V>(e: Seq<(String, V)>, k: Seq<char>) -> bool {
    exists|i: int| 0 <= i < e.len() && (#[trigger] e[i]).0@ == k
}

/// The position of the entry with the name `k`.
pub open spec fn position<V>(e: Seq<(String, V)>, k: Seq<char>) -> int {
    choose|i: int| 0 <= i < e.len() && (#[trigger] e[i]).0@ == k
}

/// The map that a sequence of entries stands for.
pub open spec fn map_of<V>(e: Seq<(String, V)>) -> Map<Seq<char>, V> {
    Map::new(|k: Seq<char>| named(e, k), |k: Seq<char>| e[position(e, k)].1)
}

/// A map from names to values. Names do not repeat; the entries stay in the
/// order in which their names were first inserted.
#[derive(Debug)]
pub struct NameMap<V> {
    entries: Vec<(String, V)>,
}

impl<V> View for NameMap<V> {
    type V = Map<Seq<char>, V>;

    open spec fn view(&self) -> Map<Seq<char>, V> {
        map_of(self.entries())
    }
}

/// The entry at a position is what the map holds under its name.
pub proof fn lemma_entry<V>(e: Seq<(String, V)>, i: int)
    requires
        distinct(e),
        0 <= i < e.len(),
    ensures
        map_of(e).dom().contains(e[i].0@),
        map_of(e)[e[i].0@] == e[i].1,
        position(e, e[i].0@) == i,
{
    let k = e[i].0@;
    assert(named(e, k));
    let p = position(e, k);
    assert(0 <= p < e.len() && e[p].0@ == k);
    if p < i {
        assert(e[p].0@ != e[i].0@);
    } else if i < p {
        assert(e[i].0@ != e[p].0@);
    }
}

/// Every name of the map is that of an entry.
pub proof fn lemma_named<V>(e: Seq<(String, V)>, k: Seq<char>)
    requires
        map_of(e).dom().contains(k),
    ensures
        0 <= position(e, k) < e.len(),
        e[position(e, k)].0@ == k,
        e[position(e, k)].1 == map_of(e)[k],
{
}

impl<V> NameMap<V> {
    /// The entries, in the order in which their names came.
    pub closed spec fn entries(self) -> Seq<(String, V)> {
        self.entries@
    }

    #[verifier::type_invariant]
    closed spec fn names_do_not_repeat(self) -> bool {
        distinct(self.entries@)
    }

    /// The empty map.
    pub fn new() -> (m: Self)
        ensures
            m@ == Map::<Seq<char>, V>::empty(),
            m.entries() == Seq::<(String, V)>::empty(),
    {
        let m = NameMap { entries: Vec::new() };
        assert(m@ =~= Map::<Seq<char>, V>::empty());
        m
    }

    /// The number of entries.
    pub fn len(&self) -> (n: usize)
        ensures
            n == self.entries().len(),
            distinct(self.entries()),
    {
        proof {
            use_type_invariant(self);
        }
        self.entries.len()
    }

    /// Whether there is no entry.
    pub fn is_empty(&self) -> (r: bool)
        ensures
            r == (self.entries().len() == 0),
            r == (self@ == Map::<Seq<char>, V>::empty()),
    {
        proof {
            use_type_invariant(self);
            if self.entries().len() == 0 {
                assert(self@ =~= Map::<Seq<char>, V>::empty());
            } else {
                lemma_entry(self.entries(), 0);
                assert(self@.dom().contains(self.entries()[0].0@));
            }
        }
        self.entries.len() == 0
    }

    /// The name at position `i`.
    pub fn name_at(&self, i: usize) -> (k: &String)
        requires
            i < self.entries().len(),
        ensures
            k == self.entries()[i as int].0,
    {
        &self.entries[i].0
    }

    /// The value at position `i`.
    pub fn value_at(&self, i: usize) -> (v: &V)
        requires
            i < self.entries().len(),
        ensures
            v == self.entries()[i as int].1,
    {
        &self.entries[i].1
    }

    fn find(&self, name: &str) -> (r: Option<usize>)
        ensures
            match r {
                Some(i) => i < self.entries@.len() && self.entries@[i as int].0@ == name@,
                None => !named(self.entries@, name@),
            },
    {
        let mut i: usize = 0;
        while i < self.entries.len()
            invariant
                i <= self.entries@.len(),
                forall|j: int| 0 <= j < i ==> (#[trigger] self.entries@[j]).0@ != name@,
            decreases self.entries@.len() - i,
        {
            if text::same(self.entries[i].0.as_str(), name) {
                return Some(i);
            }
            i = i + 1;
        }
        None
    }

    /// The value under `name`.
    pub fn get(&self, name: &str) -> (r: Option<&V>)
        ensures
            match r {
                Some(v) => self@.dom().contains(name@) && *v == self@[name@],
                None => !self@.dom().contains(name@),
            },
    {
        proof {
            use_type_invariant(self);
        }
        match self.find(name) {
            Some(i) => {
                proof {
                    lemma_entry(self.entries@, i as int);
                }
                Some(&self.entries[i].1)
            },
            None => None,
        }
    }

    /// Whether there is a value under `name`.
    pub fn contains_key(&self, name: &str) -> (r: bool)
        ensures
            r == self@.dom().contains(name@),
    {
        self.get(name).is_some()
    }

    /// Puts `value` under `name`, in place of what stood there. A new name comes
    /// last.
    pub fn insert(&mut self, name: String, value: V)
        ensures
            final(self)@ == old(self)@.insert(name@, value),
            !old(self)@.dom().contains(name@) ==> final(self).entries() == old(self).entries().push(
                (name, value),
            ),
            old(self)@.dom().contains(name@) ==> final(self).entries() == old(self).entries().update(
                position(old(self).entries(), name@),
                (old(self).entries()[position(old(self).entries(), name@)].0, value),
            ),
    {
        proof {
            use_type_invariant(&*self);
        }
        let ghost before: Seq<(String, V)> = self.entries@;
        let at: Option<usize> = self.find(name.as_str());
        let mut entries: Vec<(String, V)> = Vec::new();
        std::mem::swap(&mut entries, &mut self.entries);
        match at {
            Some(i) => {
                proof {
                    lemma_entry(before, i as int);
                }
                let old_name: String = entries[i].0.clone();
                entries.set(i, (old_name, value));
                assert(entries@ == before.update(i as int, (before[i as int].0, value)));
            },
            None => {
                entries.push((name, value));
                assert(entries@ == before.push((name, value)));
            },
        }
        let ghost after: Seq<(String, V)> = entries@;
        assert(distinct(after));
        self.entries = entries;
        proof {
            assert forall|k: Seq<char>| map_of(after).dom().contains(k) == map_of(before).insert(
                name@,
                value,
            ).dom().contains(k) by {
                if named(before, k) {
                    let p = position(before, k);
                    assert(after[p].0@ == k);
                }
                if named(after, k) {
                    let p = position(after, k);
                    assert(after[p].0@ == k);
                    if p < before.len() {
                        assert(before[p].0@ == k);
                    }
                }
                if k == name@ {
                    match at {
                        Some(i) => {
                            assert(after[i as int].0@ == k);
                        },
                        None => {
                            assert(after[before.len() as int].0@ == k);
                        },
                    }
                }
            }
            assert forall|k: Seq<char>| map_of(after).dom().contains(k) implies map_of(after)[k]
                == map_of(before).insert(name@, value)[k] by {
                let p = position(after, k);
                lemma_entry(after, p);
                if p < before.len() {
                    lemma_entry(before, p);
                }
            }
            assert(map_of(after) =~= map_of(before).insert(name@, value));
        }
    }

    /// Takes the entry under `name` out.
    pub fn remove(&mut self, name: &str) -> (r: Option<V>)
        ensures
            final(self)@ == old(self)@.remove(name@),
            match r {
                Some(v) => old(self)@.dom().contains(name@) && v == old(self)@[name@],
                None => !old(self)@.dom().contains(name@),
            },
    {
        proof {
            use_type_invariant(&*self);
        }
        let ghost before: Seq<(String, V)> = self.entries@;
        match self.find(name) {
            Some(i) => {
                let mut entries: Vec<(String, V)> = Vec::new();
                std::mem::swap(&mut entries, &mut self.entries);
                proof {
                    lemma_entry(before, i as int);
                }
                let taken: (String, V) = entries.remove(i);
                let ghost after: Seq<(String, V)> = entries@;
                assert(after == before.remove(i as int));
                assert(distinct(after));
                self.entries = entries;
                proof {
                    assert forall|k: Seq<char>| map_of(after).dom().contains(k) == map_of(before).remove(
                        name@,
                    ).dom().contains(k) by {
                        if named(before, k) && k != name@ {
                            let p = position(before, k);
                            if p < i {
                                assert(after[p].0@ == k);
                            } else {
                                assert(after[p - 1].0@ == k);
                            }
                        }
                        if named(after, k) {
                            let p = position(after, k);
                            if p < i {
                                assert(before[p].0@ == k);
                            } else {
                                assert(before[p + 1].0@ == k);
                            }
                        }
                    }
                    assert forall|k: Seq<char>| map_of(after).dom().contains(k) implies map_of(after)[k]
                        == map_of(before).remove(name@)[k] by {
                        let p = position(after, k);
                        lemma_entry(after, p);
                        if p < i {
                            lemma_entry(before, p);
                        } else {
                            lemma_entry(before, p + 1);
                        }
                    }
                    assert(map_of(after) =~= map_of(before).remove(name@));
                }
                Some(taken.1)
            },
            None => {
                assert(map_of(before) =~= map_of(before).remove(name@));
                None
            },
        }
    }
}

impl<V: Clone> Clone for NameMap<V> {
    fn clone(&self) -> (r: Self)
        ensures
            r.entries().len() == self.entries().len(),
            forall|i: int|
                0 <= i < self.entries().len() ==> (#[trigger] r.entries()[i]).0 == self.entries()[i].0
                    && cloned(self.entries()[i].1, r.entries()[i].1),
    {
        proof {
            use_type_invariant(self);
        }
        let mut entries: Vec<(String, V)> = Vec::new();
        let mut i: usize = 0;
        while i < self.entries.len()
            invariant
                i <= self.entries@.len(),
                entries@.len() == i,
                forall|j: int|
                    0 <= j < i ==> (#[trigger] entries@[j]).0 == self.entries@[j].0 && cloned(
                        self.entries@[j].1,
                        entries@[j].1,
                    ),
            decreases self.entries@.len() - i,
        {
            entries.push((self.entries[i].0.clone(), self.entries[i].1.clone()));
            i = i + 1;
        }
        NameMap { entries }
    }
}

} // verus!
