//! Maps keyed by tenant identifiers.

use vstd::prelude::*;

use crate::tenant::TenantId;

verus! {

/// A map from tenant identifiers to values, kept as a list of entries with distinct keys.
#[derive(Debug)]
pub struct TenantMap<V> {
    entries: Vec<(TenantId, V)>,
}

/// The entry at position `i` is the one for `key`.
spec fn is_entry<V>(entries: Seq<(TenantId, V)>, key: Seq<char>, i: int) -> bool {
    0 <= i < entries.len() && entries[i].0@ == key
}

spec fn distinct_keys<V>(entries: Seq<(TenantId, V)>) -> bool {
    forall|i: int, j: int|
        0 <= i < j < entries.len() ==> (#[trigger] entries[i]).0@ != (#[trigger] entries[j]).0@
}

spec fn entries_map<V>(entries: Seq<(TenantId, V)>) -> Map<Seq<char>, V> {
    Map::new(
        |key: Seq<char>| exists|i: int| is_entry(entries, key, i),
        |key: Seq<char>| entries[choose|i: int| is_entry(entries, key, i)].1,
    )
}

proof fn lemma_entry<V>(entries: Seq<(TenantId, V)>, i: int)
    requires
        distinct_keys(entries),
        0 <= i < entries.len(),
    ensures
        entries_map(entries).contains_key(entries[i].0@),
        entries_map(entries)[entries[i].0@] == entries[i].1,
{
    assert(is_entry(entries, entries[i].0@, i));
    let j = choose|j: int| is_entry(entries, entries[i].0@, j);
    assert(i == j);
}

proof fn lemma_update<V>(entries: Seq<(TenantId, V)>, i: int, entry: (TenantId, V))
    requires
        distinct_keys(entries),
        0 <= i < entries.len(),
        entry.0@ == entries[i].0@,
    ensures
        distinct_keys(entries.update(i, entry)),
        entries_map(entries.update(i, entry)) == entries_map(entries).insert(entry.0@, entry.1),
{
    let updated = entries.update(i, entry);
    let expected = entries_map(entries).insert(entry.0@, entry.1);
    assert(distinct_keys(updated));
    assert forall|key: Seq<char>|
        #![trigger entries_map(updated).dom().contains(key)]
        #![trigger entries_map(updated)[key]]
        entries_map(updated).contains_key(key) == expected.contains_key(key) && (
        expected.contains_key(key) ==> entries_map(updated)[key] == expected[key]) by {
        if entries_map(updated).contains_key(key) {
            let j = choose|j: int| is_entry(updated, key, j);
            assert(is_entry(entries, key, j));
            lemma_entry(updated, j);
            lemma_entry(entries, j);
        }
        if expected.contains_key(key) {
            if key == entry.0@ {
                assert(is_entry(updated, key, i));
            } else {
                let j = choose|j: int| is_entry(entries, key, j);
                assert(is_entry(updated, key, j));
            }
        }
    }
    assert(entries_map(updated) =~= expected);
}

proof fn lemma_push<V>(entries: Seq<(TenantId, V)>, entry: (TenantId, V))
    requires
        distinct_keys(entries),
        !entries_map(entries).contains_key(entry.0@),
    ensures
        distinct_keys(entries.push(entry)),
        entries_map(entries.push(entry)) == entries_map(entries).insert(entry.0@, entry.1),
{
    let pushed = entries.push(entry);
    let expected = entries_map(entries).insert(entry.0@, entry.1);
    assert forall|i: int, j: int| 0 <= i < j < pushed.len() implies (#[trigger] pushed[i]).0@ != (
    #[trigger] pushed[j]).0@ by {
        if j == entries.len() {
            assert(is_entry(entries, entries[i].0@, i));
        }
    }
    assert forall|key: Seq<char>|
        #![trigger entries_map(pushed).dom().contains(key)]
        #![trigger entries_map(pushed)[key]]
        entries_map(pushed).contains_key(key) == expected.contains_key(key) && (
        expected.contains_key(key) ==> entries_map(pushed)[key] == expected[key]) by {
        if entries_map(pushed).contains_key(key) {
            let j = choose|j: int| is_entry(pushed, key, j);
            lemma_entry(pushed, j);
            if j < entries.len() {
                assert(is_entry(entries, key, j));
                lemma_entry(entries, j);
            }
        }
        if expected.contains_key(key) {
            if key == entry.0@ {
                assert(is_entry(pushed, key, entries.len() as int));
            } else {
                let j = choose|j: int| is_entry(entries, key, j);
                assert(is_entry(pushed, key, j));
            }
        }
    }
    assert(entries_map(pushed) =~= expected);
}

proof fn lemma_remove<V>(entries: Seq<(TenantId, V)>, i: int)
    requires
        distinct_keys(entries),
        0 <= i < entries.len(),
    ensures
        distinct_keys(entries.remove(i)),
        entries_map(entries.remove(i)) == entries_map(entries).remove(entries[i].0@),
{
    let rest = entries.remove(i);
    let expected = entries_map(entries).remove(entries[i].0@);
    assert(forall|j: int| 0 <= j < rest.len() ==> #[trigger] rest[j] == entries[if j < i { j } else { j + 1 }]);
    assert(distinct_keys(rest));
    assert forall|key: Seq<char>|
        #![trigger entries_map(rest).dom().contains(key)]
        #![trigger entries_map(rest)[key]]
        entries_map(rest).contains_key(key) == expected.contains_key(key) && (
        expected.contains_key(key) ==> entries_map(rest)[key] == expected[key]) by {
        if entries_map(rest).contains_key(key) {
            let j = choose|j: int| is_entry(rest, key, j);
            let k = if j < i { j } else { j + 1 };
            assert(is_entry(entries, key, k));
            lemma_entry(rest, j);
            lemma_entry(entries, k);
            assert(entries[i].0@ != key);
        }
        if expected.contains_key(key) {
            let k = choose|k: int| is_entry(entries, key, k);
            assert(k != i);
            assert(is_entry(rest, key, if k < i { k } else { k - 1 }));
        }
    }
    assert(entries_map(rest) =~= expected);
}

proof fn lemma_len<V>(entries: Seq<(TenantId, V)>)
    requires
        distinct_keys(entries),
    ensures
        entries_map(entries).dom().finite(),
        entries_map(entries).dom().len() == entries.len(),
    decreases entries.len(),
{
    if entries.len() == 0 {
        assert(entries_map(entries).dom() =~= Set::empty());
    } else {
        let last = entries.len() - 1;
        let rest = entries.remove(last);
        lemma_remove(entries, last);
        lemma_len(rest);
        lemma_entry(entries, last);
        assert(entries_map(entries).dom() =~= entries_map(rest).dom().insert(entries[last].0@));
    }
}

impl<V> View for TenantMap<V> {
    type V = Map<Seq<char>, V>;

    closed spec fn view(&self) -> Map<Seq<char>, V> {
        entries_map(self.entries@)
    }
}

impl<V> TenantMap<V> {
    /// No tenant identifier occurs twice.
    pub closed spec fn well_formed(self) -> bool {
        distinct_keys(self.entries@)
    }

    /// Creates an empty map.
    pub fn new() -> (map: Self)
        ensures
            map.well_formed(),
            map@ == Map::<Seq<char>, V>::empty(),
    {
        let map = TenantMap { entries: Vec::new() };
        assert(map@ =~= Map::<Seq<char>, V>::empty());
        map
    }

    fn position(&self, key: &TenantId) -> (position: Option<usize>)
        requires
            self.well_formed(),
        ensures
            match position {
                Some(i) => is_entry(self.entries@, key@, i as int),
                None => !self@.contains_key(key@),
            },
    {
        let mut i: usize = 0;
        while i < self.entries.len()
            invariant
                i <= self.entries@.len(),
                forall|j: int| 0 <= j < i ==> !is_entry(self.entries@, key@, j),
            decreases self.entries@.len() - i,
        {
            if &self.entries[i].0 == key {
                return Some(i);
            }
            i += 1;
        }
        None
    }

    /// Whether the map holds a value for the tenant.
    pub fn contains_key(&self, key: &TenantId) -> (found: bool)
        requires
            self.well_formed(),
        ensures
            found == self@.contains_key(key@),
    {
        match self.position(key) {
            Some(i) => {
                proof {
                    lemma_entry(self.entries@, i as int);
                }
                true
            },
            None => false,
        }
    }

    /// The value for the tenant.
    pub fn get(&self, key: &TenantId) -> (value: Option<&V>)
        requires
            self.well_formed(),
        ensures
            match value {
                Some(value) => self@.contains_key(key@) && *value == self@[key@],
                None => !self@.contains_key(key@),
            },
    {
        match self.position(key) {
            Some(i) => {
                proof {
                    lemma_entry(self.entries@, i as int);
                }
                Some(&self.entries[i].1)
            },
            None => None,
        }
    }

    /// The value for the tenant, for modification.
    pub fn get_mut(&mut self, key: &TenantId) -> (value: Option<&mut V>)
        requires
            old(self).well_formed(),
        ensures
            final(self).well_formed(),
            match value {
                Some(value) => {
                    &&& old(self)@.contains_key(key@)
                    &&& *value == old(self)@[key@]
                    &&& final(self)@ == old(self)@.insert(key@, *final(value))
                },
                None => !old(self)@.contains_key(key@) && final(self)@ == old(self)@,
            },
    {
        match self.position(key) {
            Some(i) => {
                proof {
                    lemma_entry(self.entries@, i as int);
                    assert forall|value: V| #[trigger]
                        distinct_keys(self.entries@.update(i as int, (self.entries@[i as int].0, value)))
                            && entries_map(self.entries@.update(i as int, (self.entries@[i as int].0, value)))
                            == entries_map(self.entries@).insert(key@, value) by {
                        lemma_update(self.entries@, i as int, (self.entries@[i as int].0, value));
                    }
                }
                Some(&mut self.entries[i].1)
            },
            None => None,
        }
    }

    /// Sets the value for the tenant.
    pub fn insert(&mut self, key: TenantId, value: V)
        requires
            old(self).well_formed(),
        ensures
            final(self).well_formed(),
            final(self)@ == old(self)@.insert(key@, value),
    {
        match self.position(&key) {
            Some(i) => {
                proof {
                    lemma_update(self.entries@, i as int, (key, value));
                }
                self.entries[i] = (key, value);
            },
            None => {
                proof {
                    lemma_push(self.entries@, (key, value));
                }
                self.entries.push((key, value));
            },
        }
    }

    /// Takes the value for the tenant out of the map.
    pub fn remove(&mut self, key: &TenantId) -> (value: Option<V>)
        requires
            old(self).well_formed(),
        ensures
            final(self).well_formed(),
            final(self)@ == old(self)@.remove(key@),
            match value {
                Some(value) => old(self)@.contains_key(key@) && value == old(self)@[key@],
                None => !old(self)@.contains_key(key@),
            },
    {
        match self.position(key) {
            Some(i) => {
                proof {
                    lemma_entry(self.entries@, i as int);
                    lemma_remove(self.entries@, i as int);
                }
                Some(self.entries.remove(i).1)
            },
            None => {
                assert(self@.remove(key@) =~= self@);
                None
            },
        }
    }

    /// The number of tenants in the map.
    pub fn len(&self) -> (len: usize)
        requires
            self.well_formed(),
        ensures
            len == self@.dom().len(),
            self@.dom().finite(),
    {
        proof {
            lemma_len(self.entries@);
        }
        self.entries.len()
    }
}

} // verus!
