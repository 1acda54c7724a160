//! A small map from names to values, kept as a list of entries in
//! insertion order with no name repeated.

use vstd::prelude::*;
use crate::text::str_eq;

verus! {

/// The value of the first entry named `name`.
pub open spec fn lookup<V>(entries: Seq<(String, V)>, name: Seq<char>) -> Option<V>
    decreases entries.len(),
{
    if entries.len() == 0 {
        None
    } else if entries[0].0@ == name {
        Some(entries[0].1)
    } else {
        lookup(entries.drop_first(), name)
    }
}

/// No two entries share a name.
pub open spec fn names_distinct<V>(entries: Seq<(String, V)>) -> bool {
    forall|i: int, j: int|
        0 <= i < j < entries.len() ==> (#[trigger] entries[i]).0@ != (#[trigger] entries[j]).0@
}

proof fn lemma_lookup_index<V>(entries: Seq<(String, V)>, name: Seq<char>, k: int)
    requires
        0 <= k < entries.len(),
        entries[k].0@ == name,
        forall|i: int| 0 <= i < k ==> (#[trigger] entries[i]).0@ != name,
    ensures
        lookup(entries, name) == Some(entries[k].1),
    decreases k,
{
    if k > 0 {
        let rest = entries.drop_first();
        assert forall|i: int| 0 <= i < k - 1 implies (#[trigger] rest[i]).0@ != name by {
            assert(rest[i] == entries[i + 1]);
        }
        lemma_lookup_index(rest, name, k - 1);
    }
}

proof fn lemma_lookup_absent<V>(entries: Seq<(String, V)>, name: Seq<char>)
    requires
        forall|i: int| 0 <= i < entries.len() ==> (#[trigger] entries[i]).0@ != name,
    ensures
        lookup(entries, name) is None,
    decreases entries.len(),
{
    if entries.len() > 0 {
        let rest = entries.drop_first();
        assert forall|i: int| 0 <= i < rest.len() implies (#[trigger] rest[i]).0@ != name by {
            assert(rest[i] == entries[i + 1]);
        }
        lemma_lookup_absent(rest, name);
    }
}

/// A name has a value exactly when some entry carries it.
pub proof fn lemma_lookup_some_iff<V>(entries: Seq<(String, V)>, name: Seq<char>)
    ensures
        lookup(entries, name) is Some <==> exists|i: int|
            0 <= i < entries.len() && (#[trigger] entries[i]).0@ == name,
    decreases entries.len(),
{
    if entries.len() > 0 {
        let rest = entries.drop_first();
        lemma_lookup_some_iff(rest, name);
        if lookup(rest, name) is Some {
            let i = choose|i: int| 0 <= i < rest.len() && (#[trigger] rest[i]).0@ == name;
            assert(entries[i + 1] == rest[i]);
        }
        if exists|i: int| 0 <= i < entries.len() && (#[trigger] entries[i]).0@ == name {
            let i = choose|i: int| 0 <= i < entries.len() && (#[trigger] entries[i]).0@ == name;
            if i > 0 {
                assert(rest[i - 1] == entries[i]);
            }
        }
    }
}

proof fn lemma_lookup_same<V>(before: Seq<(String, V)>, after: Seq<(String, V)>, other: Seq<char>, k: int)
    requires
        0 <= k < before.len(),
        after.len() == before.len(),
        forall|i: int| 0 <= i < before.len() && i != k ==> after[i] == before[i],
        after[k].0@ == before[k].0@,
        before[k].0@ != other,
    ensures
        lookup(after, other) == lookup(before, other),
    decreases before.len(),
{
    if k > 0 {
        if before[0].0@ != other {
            lemma_lookup_same(before.drop_first(), after.drop_first(), other, k - 1);
        }
    } else {
        assert(before.drop_first() =~= after.drop_first());
    }
}

proof fn lemma_lookup_push<V>(before: Seq<(String, V)>, after: Seq<(String, V)>, other: Seq<char>)
    requires
        after.len() == before.len() + 1,
        forall|i: int| 0 <= i < before.len() ==> after[i] == before[i],
        after.last().0@ != other,
    ensures
        lookup(after, other) == lookup(before, other),
    decreases before.len(),
{
    if before.len() == 0 {
        assert(after.drop_first() =~= Seq::<(String, V)>::empty());
    } else if before[0].0@ != other {
        lemma_lookup_push(before.drop_first(), after.drop_first(), other);
    }
}

/// A map from names to values.
#[derive(Debug, Clone)]
pub struct NamedMap<V> {
    entries: Vec<(String, V)>,
}

impl<V> NamedMap<V> {
    /// The entries, in insertion order.
    pub closed spec fn entries(&self) -> Seq<(String, V)> {
        self.entries@
    }

    /// The value stored under `name`.
    pub open spec fn get_spec(&self, name: Seq<char>) -> Option<V> {
        lookup(self.entries(), name)
    }

    /// No name is stored twice.
    pub open spec fn wf(&self) -> bool {
        names_distinct(self.entries())
    }

    /// An empty map.
    pub fn new() -> (r: Self)
        ensures
            r.wf(),
            r.entries().len() == 0,
            forall|name: Seq<char>| r.get_spec(name) is None,
    {
        NamedMap { entries: Vec::new() }
    }

    fn index_of(&self, name: &str) -> (r: Option<usize>)
        ensures
            r matches Some(k) ==> k < self.entries@.len() && self.entries@[k as int].0@ == name@
                && forall|i: int| 0 <= i < k ==> (#[trigger] self.entries@[i]).0@ != name@,
            r is None ==> forall|i: int|
                0 <= i < self.entries@.len() ==> (#[trigger] self.entries@[i]).0@ != name@,
    {
        let mut i: usize = 0;
        while i < self.entries.len()
            invariant
                i <= self.entries@.len(),
                forall|k: int| 0 <= k < i ==> (#[trigger] self.entries@[k]).0@ != name@,
            decreases self.entries.len() - i,
        {
            if str_eq(self.entries[i].0.as_str(), name) {
                return Some(i);
            }
            i = i + 1;
        }
        None
    }

    /// The value stored under `name`, if any.
    pub fn get(&self, name: &str) -> (r: Option<&V>)
        ensures
            match r {
                Some(v) => self.get_spec(name@) == Some(*v),
                None => self.get_spec(name@) is None,
            },
    {
        match self.index_of(name) {
            Some(k) => {
                proof {
                    lemma_lookup_index(self.entries@, name@, k as int);
                }
                Some(&self.entries[k].1)
            },
            None => {
                proof {
                    lemma_lookup_absent(self.entries@, name@);
                }
                None
            },
        }
    }

    /// Whether `name` has a value.
    pub fn contains_key(&self, name: &str) -> (r: bool)
        ensures
            r <==> self.get_spec(name@) is Some,
    {
        self.get(name).is_some()
    }

    /// The number of names stored.
    pub fn len(&self) -> (r: usize)
        ensures
            r == self.entries().len(),
    {
        self.entries.len()
    }

    /// Whether the map is empty.
    pub fn is_empty(&self) -> (r: bool)
        ensures
            r <==> self.entries().len() == 0,
    {
        self.entries.len() == 0
    }

    /// The entries, in insertion order.
    pub fn entries_vec(&self) -> (r: &Vec<(String, V)>)
        ensures
            r@ == self.entries(),
    {
        &self.entries
    }

    /// Store `value` under `name`, replacing any value stored there. A new
    /// name goes at the end; a known name keeps its place.
    pub fn insert(&mut self, name: String, value: V)
        requires
            old(self).wf(),
        ensures
            final(self).wf(),
            final(self).get_spec(name@) == Some(value),
            forall|other: Seq<char>|
                other != name@ ==> #[trigger] final(self).get_spec(other) == old(self).get_spec(
                    other,
                ),
            old(self).get_spec(name@) is Some ==> final(self).entries().len() == old(
                self,
            ).entries().len(),
            old(self).get_spec(name@) is None ==> final(self).entries() == old(self).entries().push(
                (name, value),
            ),
    {
        let ghost key = name@;
        let ghost before = self.entries@;
        match self.index_of(name.as_str()) {
            Some(k) => {
                proof {
                    lemma_lookup_index(before, key, k as int);
                }
                self.entries.set(k, (name, value));
                proof {
                    let after = self.entries@;
                    lemma_lookup_index(after, key, k as int);
                    assert forall|other: Seq<char>| other != key implies #[trigger] lookup(
                        after,
                        other,
                    ) == lookup(before, other) by {
                        lemma_lookup_same(before, after, other, k as int);
                    }
                    assert forall|i: int, j: int|
                        0 <= i < j < after.len() implies (#[trigger] after[i]).0@ != (
                    #[trigger] after[j]).0@ by {
                        if i != k as int && j != k as int {
                            assert(after[i] == before[i] && after[j] == before[j]);
                        } else if i == k as int {
                            assert(after[j] == before[j]);
                            assert(before[i].0@ != before[j].0@);
                        } else {
                            assert(after[i] == before[i]);
                            assert(before[i].0@ != before[j].0@);
                        }
                    }
                }
            },
            None => {
                proof {
                    lemma_lookup_absent(before, key);
                }
                self.entries.push((name, value));
                proof {
                    let after = self.entries@;
                    lemma_lookup_index(after, key, before.len() as int);
                    assert forall|other: Seq<char>| other != key implies #[trigger] lookup(
                        after,
                        other,
                    ) == lookup(before, other) by {
                        lemma_lookup_push(before, after, other);
                    }
                }
            },
        }
    }
}

} // verus!
