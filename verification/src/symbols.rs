//! A map keyed by symbol that keeps its keys in the order of their first insertion.

use crate::text::words::same_text;
use vstd::prelude::*;

verus! {

/// A map from symbols to values.
#[verifier::reject_recursive_types(V)]
pub struct SymbolMap<V> {
    entries: Vec<(String, V)>,
}

spec fn holds<V>(entries: Seq<(String, V)>, i: int, key: Seq<char>) -> bool {
    0 <= i < entries.len() && entries[i].0@ == key
}

spec fn distinct<V>(entries: Seq<(String, V)>) -> bool {
    forall|i: int, j: int|
        0 <= i < j < entries.len() ==> #[trigger] entries[i].0@ != #[trigger] entries[j].0@
}

spec fn contents<V>(entries: Seq<(String, V)>) -> Map<Seq<char>, V> {
    Map::new(
        |k: Seq<char>| exists|i: int| holds(entries, i, k),
        |k: Seq<char>| entries[choose|i: int| holds(entries, i, k)].1,
    )
}

spec fn names<V>(entries: Seq<(String, V)>) -> Seq<Seq<char>> {
    Seq::new(entries.len(), |i: int| entries[i].0@)
}

proof fn lemma_at<V>(entries: Seq<(String, V)>, i: int)
    requires
        distinct(entries),
        0 <= i < entries.len(),
    ensures
        contents(entries).contains_key(entries[i].0@),
        contents(entries)[entries[i].0@] == entries[i].1,
{
    let k = entries[i].0@;
    assert(holds(entries, i, k));
    let j = choose|j: int| holds(entries, j, k);
    assert(holds(entries, j, k));
    assert(i == j);
}

impl<V> View for SymbolMap<V> {
    type V = Map<Seq<char>, V>;

    closed spec fn view(&self) -> Map<Seq<char>, V> {
        contents(self.entries@)
    }
}

impl<V> SymbolMap<V> {
    #[verifier::type_invariant]
    spec fn inv(self) -> bool {
        distinct(self.entries@)
    }

    /// The keys in the order of their first insertion.
    pub closed spec fn keys(self) -> Seq<Seq<char>> {
        names(self.entries@)
    }

    pub fn new() -> (m: Self)
        ensures
            m@ == Map::<Seq<char>, V>::empty(),
            m.keys() == Seq::<Seq<char>>::empty(),
    {
        let entries: Vec<(String, V)> = Vec::new();
        proof {
            assert(contents(entries@) =~= Map::<Seq<char>, V>::empty());
            assert(names(entries@) =~= Seq::<Seq<char>>::empty());
        }
        SymbolMap { entries }
    }

    pub fn len(&self) -> (n: usize)
        ensures
            n == self.keys().len(),
            self.well_formed(),
    {
        proof {
            use_type_invariant(self);
        }
        self.entries.len()
    }

    fn position(&self, key: &str) -> (r: Option<usize>)
        ensures
            match r {
                Some(i) => holds(self.entries@, i as int, key@) && self@.contains_key(key@)
                    && self@[key@] == self.entries@[i as int].1,
                None => !self@.contains_key(key@) && forall|i: int|
                    !holds(self.entries@, i, key@),
            },
    {
        proof {
            use_type_invariant(&*self);
        }
        let mut i: usize = 0;
        while i < self.entries.len()
            invariant
                i <= self.entries@.len(),
                distinct(self.entries@),
                forall|j: int| 0 <= j < i ==> !holds(self.entries@, j, key@),
            decreases self.entries@.len() - i,
        {
            if same_text(self.entries[i].0.as_str(), key) {
                proof {
                    lemma_at(self.entries@, i as int);
                }
                return Some(i);
            }
            i = i + 1;
        }
        None
    }

    pub fn contains(&self, key: &str) -> (r: bool)
        ensures
            r == self@.contains_key(key@),
    {
        self.position(key).is_some()
    }

    pub fn get(&self, key: &str) -> (r: Option<&V>)
        ensures
            match r {
                Some(v) => self@.contains_key(key@) && *v == self@[key@],
                None => !self@.contains_key(key@),
            },
    {
        match self.position(key) {
            Some(i) => Some(&self.entries[i].1),
            None => None,
        }
    }

    /// The entry at place `i`.
    pub fn entry(&self, i: usize) -> (r: (&String, &V))
        requires
            i < self.keys().len(),
        ensures
            r.0@ == self.keys()[i as int],
            self@.contains_key(r.0@),
            *r.1 == self@[r.0@],
    {
        proof {
            use_type_invariant(&*self);
            lemma_at(self.entries@, i as int);
        }
        (&self.entries[i].0, &self.entries[i].1)
    }

    /// Sets the value of a key and hands out the one that it had.
    pub fn insert(&mut self, key: &str, value: V) -> (r: Option<V>)
        ensures
            r == if old(self)@.contains_key(key@) {
                Some(old(self)@[key@])
            } else {
                None
            },
            final(self)@ == old(self)@.insert(key@, value),
            final(self).keys() == if old(self)@.contains_key(key@) {
                old(self).keys()
            } else {
                old(self).keys().push(key@)
            },
    {
        let found = self.position(key);
        proof {
            use_type_invariant(&*self);
        }
        let ghost before = self.entries@;
        let mut entries: Vec<(String, V)> = Vec::new();
        std::mem::swap(&mut entries, &mut self.entries);
        let mut slot: (String, V) = (key.to_string(), value);
        let replaced: Option<V> = match found {
            Some(i) => {
                std::mem::swap(&mut entries[i], &mut slot);
                Some(slot.1)
            },
            None => {
                entries.push(slot);
                None
            },
        };
        proof {
            let after = entries@;
            let at: int = match found {
                Some(i) => i as int,
                None => before.len() as int,
            };
            assert(after[at].0@ == key@ && after[at].1 == value);
            assert forall|i: int, j: int| 0 <= i < j < after.len() implies #[trigger] after[i].0@
                != #[trigger] after[j].0@ by {
                if i != at && j != at {
                    assert(before[i].0@ != before[j].0@);
                } else if i == at && j < before.len() {
                    assert(!holds(before, j, key@) || j == at);
                } else if j == at && i < before.len() {
                    assert(!holds(before, i, key@) || i == at);
                }
            }
            lemma_insert(before, after, at, key@, value);
            assert(names(after) =~= if contents(before).contains_key(key@) {
                names(before)
            } else {
                names(before).push(key@)
            });
        }
        self.entries = entries;
        replaced
    }

    /// Takes out a key with its value.
    pub fn remove(&mut self, key: &str) -> (r: Option<V>)
        ensures
            final(self)@ == old(self)@.remove(key@),
            match r {
                Some(v) => old(self)@.contains_key(key@) && v == old(self)@[key@] && exists|i: int|
                    0 <= i < old(self).keys().len() && #[trigger] old(self).keys()[i] == key@
                        && final(self).keys() == old(self).keys().remove(i),
                None => !old(self)@.contains_key(key@) && final(self).keys() == old(self).keys(),
            },
    {
        let found = self.position(key);
        proof {
            use_type_invariant(&*self);
        }
        let ghost before = self.entries@;
        match found {
            Some(i) => {
                let mut entries: Vec<(String, V)> = Vec::new();
                std::mem::swap(&mut entries, &mut self.entries);
                let gone = entries.remove(i);
                proof {
                    let after = entries@;
                    assert(after == before.remove(i as int));
                    lemma_remove(before, after, i as int);
                    assert(names(after) =~= names(before).remove(i as int));
                    assert(names(before)[i as int] == key@);
                }
                self.entries = entries;
                proof {
                    assert(old(self).keys()[i as int] == key@);
                    assert(self.keys() == old(self).keys().remove(i as int));
                }
                Some(gone.1)
            },
            None => {
                proof {
                    assert(contents(before).remove(key@) =~= contents(before));
                }
                None
            },
        }
    }

    /// The keys with their values, in the order of their first insertion.
    pub proof fn lemma_keys(&self)
        requires
            self.well_formed(),
        ensures
            forall|i: int| 0 <= i < self.keys().len() ==> self@.contains_key(#[trigger] self.keys()[i]),
            forall|k: Seq<char>| self@.contains_key(k) ==> #[trigger] self.keys().contains(k),
            self.keys().no_duplicates(),
    {
        let e = self.entries@;
        assert forall|i: int| 0 <= i < self.keys().len() implies self@.contains_key(
            #[trigger] self.keys()[i],
        ) by {
            lemma_at(e, i);
        }
        assert forall|k: Seq<char>| self@.contains_key(k) implies #[trigger] self.keys().contains(k) by {
            let i = choose|i: int| holds(e, i, k);
            assert(holds(e, i, k));
            assert(self.keys()[i] == k);
        }
    }

    /// No key occurs twice.
    pub closed spec fn well_formed(self) -> bool {
        distinct(self.entries@)
    }
}

proof fn lemma_remove<V>(before: Seq<(String, V)>, after: Seq<(String, V)>, at: int)
    requires
        distinct(before),
        0 <= at < before.len(),
        after == before.remove(at),
    ensures
        distinct(after),
        contents(after) == contents(before).remove(before[at].0@),
{
    let key = before[at].0@;
    assert forall|i: int, j: int| 0 <= i < j < after.len() implies #[trigger] after[i].0@
        != #[trigger] after[j].0@ by {
        let i0 = if i < at {
            i
        } else {
            i + 1
        };
        let j0 = if j < at {
            j
        } else {
            j + 1
        };
        assert(after[i] == before[i0] && after[j] == before[j0]);
    }
    let a = contents(after);
    let b = contents(before).remove(key);
    assert forall|k: Seq<char>| a.contains_key(k) == b.contains_key(k) by {
        if a.contains_key(k) {
            let i = choose|i: int| holds(after, i, k);
            assert(holds(after, i, k));
            let i0 = if i < at {
                i
            } else {
                i + 1
            };
            assert(holds(before, i0, k));
            assert(before[i0].0@ != before[at].0@);
        }
        if b.contains_key(k) {
            let i = choose|i: int| holds(before, i, k);
            assert(holds(before, i, k));
            let i1 = if i < at {
                i
            } else {
                i - 1
            };
            assert(holds(after, i1, k));
        }
    }
    assert forall|k: Seq<char>| a.contains_key(k) implies a[k] == b[k] by {
        let i = choose|i: int| holds(after, i, k);
        assert(holds(after, i, k));
        lemma_at(after, i);
        let i0 = if i < at {
            i
        } else {
            i + 1
        };
        lemma_at(before, i0);
    }
    assert(a =~= b);
}

proof fn lemma_insert<V>(
    before: Seq<(String, V)>,
    after: Seq<(String, V)>,
    at: int,
    key: Seq<char>,
    value: V,
)
    requires
        distinct(before),
        distinct(after),
        0 <= at < after.len(),
        after[at].0@ == key,
        after[at].1 == value,
        after.len() == before.len() || (after.len() == before.len() + 1 && at == before.len()),
        forall|i: int|
            0 <= i < before.len() && i != at ==> (#[trigger] after[i]).0@ == before[i].0@
                && after[i].1 == before[i].1,
        at < before.len() ==> before[at].0@ == key,
        at == before.len() ==> forall|i: int| !holds(before, i, key),
    ensures
        contents(after) == contents(before).insert(key, value),
{
    let a = contents(after);
    let b = contents(before).insert(key, value);
    assert forall|k: Seq<char>| a.contains_key(k) == b.contains_key(k) by {
        if a.contains_key(k) && k != key {
            let i = choose|i: int| holds(after, i, k);
            assert(holds(after, i, k));
            assert(holds(before, i, k));
        }
        if b.contains_key(k) && k != key {
            let i = choose|i: int| holds(before, i, k);
            assert(holds(before, i, k));
            assert(holds(after, i, k));
        }
        if k == key {
            lemma_at(after, at);
        }
    }
    assert forall|k: Seq<char>| a.contains_key(k) implies a[k] == b[k] by {
        let i = choose|i: int| holds(after, i, k);
        assert(holds(after, i, k));
        lemma_at(after, i);
        if k == key {
            lemma_at(after, at);
        } else {
            lemma_at(before, i);
        }
    }
    assert(a =~= b);
}

} // verus!
