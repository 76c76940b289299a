//! A small table keyed by text, kept as a list of entries with distinct keys.
//!
//! Its view is a `Map` from the characters of a key to the value stored under
//! it. Entries can also be walked by position, in an order that the table
//! does not promise to keep.

use crate::text::str_eq;
use vstd::prelude::*;

verus! {

/// No two entries share a key.
pub open spec fn keys_distinct<V>(entries: Seq<(String, V)>) -> bool {
    forall|i: int, j: int|
        0 <= i < j < entries.len() ==> (#[trigger] entries[i]).0@ != (#[trigger] entries[j]).0@
}

/// Some entry has the key `key`.
pub open spec fn has_key<V>(entries: Seq<(String, V)>, key: Seq<char>) -> bool {
    exists|i: int| 0 <= i < entries.len() && (#[trigger] entries[i]).0@ == key
}

/// The position of an entry with the key `key`.
pub open spec fn position_of<V>(entries: Seq<(String, V)>, key: Seq<char>) -> int {
    choose|i: int| 0 <= i < entries.len() && (#[trigger] entries[i]).0@ == key
}

/// The map that a list of entries stands for.
pub open spec fn table_of<V>(entries: Seq<(String, V)>) -> Map<Seq<char>, V> {
    Map::new(
        |key: Seq<char>| has_key(entries, key),
        |key: Seq<char>| entries[position_of(entries, key)].1,
    )
}

/// With distinct keys, the entry at `i` is the one found under its key.
pub proof fn lemma_table_lookup<V>(entries: Seq<(String, V)>, i: int)
    requires
        keys_distinct(entries),
        0 <= i < entries.len(),
    ensures
        table_of(entries).contains_key(entries[i].0@),
        table_of(entries)[entries[i].0@] == entries[i].1,
{
    let key = entries[i].0@;
    assert(has_key(entries, key));
    let j = position_of(entries, key);
    assert(entries[j].0@ == key);
    if j < i {
        assert(entries[j].0@ != entries[i].0@);
    } else if i < j {
        assert(entries[i].0@ != entries[j].0@);
    }
}

/// Appending an entry under a new key inserts it into the map.
pub proof fn lemma_table_push<V>(entries: Seq<(String, V)>, key: String, value: V)
    requires
        keys_distinct(entries),
        !has_key(entries, key@),
    ensures
        keys_distinct(entries.push((key, value))),
        table_of(entries.push((key, value))) == table_of(entries).insert(key@, value),
{
    let after = entries.push((key, value));
    assert forall|i: int, j: int| 0 <= i < j < after.len() implies (#[trigger] after[i]).0@ != (
    #[trigger] after[j]).0@ by {
        if j < entries.len() {
            assert(after[i] == entries[i] && after[j] == entries[j]);
        } else {
            assert(after[i] == entries[i]);
        }
    }
    assert forall|k: Seq<char>| #[trigger]
        table_of(after).contains_key(k) <==> table_of(entries).insert(key@, value).contains_key(
            k,
        ) by {
        if has_key(after, k) {
            let i = position_of(after, k);
            if i < entries.len() {
                assert(entries[i] == after[i]);
            }
        }
        if has_key(entries, k) {
            let i = position_of(entries, k);
            assert(after[i] == entries[i]);
        }
        if k == key@ {
            assert(after[entries.len() as int].0@ == k);
        }
    }
    assert forall|k: Seq<char>| #[trigger] table_of(after).contains_key(k) implies table_of(
        after,
    )[k] == table_of(entries).insert(key@, value)[k] by {
        let i = position_of(after, k);
        lemma_table_lookup(after, i);
        if i < entries.len() {
            assert(entries[i] == after[i]);
            lemma_table_lookup(entries, i);
        }
    }
    assert(table_of(after) =~= table_of(entries).insert(key@, value));
}

/// Replacing the value of an entry, under the same key, overwrites it in the
/// map.
pub proof fn lemma_table_update<V>(entries: Seq<(String, V)>, i: int, key: String, value: V)
    requires
        keys_distinct(entries),
        0 <= i < entries.len(),
        entries[i].0@ == key@,
    ensures
        keys_distinct(entries.update(i, (key, value))),
        table_of(entries.update(i, (key, value))) == table_of(entries).insert(key@, value),
{
    let after = entries.update(i, (key, value));
    assert forall|a: int, b: int| 0 <= a < b < after.len() implies (#[trigger] after[a]).0@ != (
    #[trigger] after[b]).0@ by {
        assert(after[a].0@ == entries[a].0@);
        assert(after[b].0@ == entries[b].0@);
    }
    assert forall|k: Seq<char>| #[trigger]
        table_of(after).contains_key(k) <==> table_of(entries).insert(key@, value).contains_key(
            k,
        ) by {
        if has_key(after, k) {
            let j = position_of(after, k);
            assert(entries[j].0@ == after[j].0@);
        }
        if has_key(entries, k) {
            let j = position_of(entries, k);
            assert(after[j].0@ == entries[j].0@);
        }
        if k == key@ {
            assert(after[i].0@ == k);
        }
    }
    assert forall|k: Seq<char>| #[trigger] table_of(after).contains_key(k) implies table_of(
        after,
    )[k] == table_of(entries).insert(key@, value)[k] by {
        let j = position_of(after, k);
        lemma_table_lookup(after, j);
        if j != i {
            assert(entries[j] == after[j]);
            lemma_table_lookup(entries, j);
        }
    }
    assert(table_of(after) =~= table_of(entries).insert(key@, value));
}

/// Taking an entry out removes its key from the map.
pub proof fn lemma_table_remove<V>(entries: Seq<(String, V)>, i: int)
    requires
        keys_distinct(entries),
        0 <= i < entries.len(),
    ensures
        keys_distinct(entries.remove(i)),
        table_of(entries.remove(i)) == table_of(entries).remove(entries[i].0@),
{
    let after = entries.remove(i);
    let key = entries[i].0@;
    assert forall|a: int| 0 <= a < after.len() implies #[trigger] after[a] == entries[if a < i {
        a
    } else {
        a + 1
    }] by {}
    assert forall|a: int, b: int| 0 <= a < b < after.len() implies (#[trigger] after[a]).0@ != (
    #[trigger] after[b]).0@ by {
        let a0 = if a < i {
            a
        } else {
            a + 1
        };
        let b0 = if b < i {
            b
        } else {
            b + 1
        };
        assert(after[a] == entries[a0] && after[b] == entries[b0]);
    }
    assert forall|k: Seq<char>| #[trigger]
        table_of(after).contains_key(k) <==> table_of(entries).remove(key).contains_key(k) by {
        if has_key(after, k) {
            let j = position_of(after, k);
            let j0 = if j < i {
                j
            } else {
                j + 1
            };
            assert(after[j] == entries[j0]);
            if j0 < i {
                assert(entries[j0].0@ != entries[i].0@);
            } else {
                assert(entries[i].0@ != entries[j0].0@);
            }
        }
        if has_key(entries, k) && k != key {
            let j = position_of(entries, k);
            let j1 = if j < i {
                j
            } else {
                j - 1
            };
            assert(after[j1] == entries[j]);
        }
    }
    assert forall|k: Seq<char>| #[trigger] table_of(after).contains_key(k) implies table_of(
        after,
    )[k] == table_of(entries).remove(key)[k] by {
        let j = position_of(after, k);
        let j0 = if j < i {
            j
        } else {
            j + 1
        };
        assert(after[j] == entries[j0]);
        lemma_table_lookup(after, j);
        lemma_table_lookup(entries, j0);
    }
    assert(table_of(after) =~= table_of(entries).remove(key));
}

/// A prefix of a list with distinct keys has distinct keys, and the next
/// entry's key is not among them.
pub proof fn lemma_table_prefix<V>(entries: Seq<(String, V)>, n: int)
    requires
        keys_distinct(entries),
        0 <= n < entries.len(),
    ensures
        keys_distinct(entries.take(n)),
        !has_key(entries.take(n), entries[n].0@),
        entries.take(n + 1) == entries.take(n).push(entries[n]),
{
    let head = entries.take(n);
    assert forall|i: int, j: int| 0 <= i < j < head.len() implies (#[trigger] head[i]).0@ != (
    #[trigger] head[j]).0@ by {
        assert(head[i] == entries[i] && head[j] == entries[j]);
    }
    if has_key(head, entries[n].0@) {
        let i = position_of(head, entries[n].0@);
        assert(head[i] == entries[i]);
        assert(entries[i].0@ != entries[n].0@);
    }
    assert(entries.take(n + 1) =~= head.push(entries[n]));
}

/// A list of entries with distinct keys stands for a finite map with as many
/// keys as the list has entries.
pub proof fn lemma_table_size<V>(entries: Seq<(String, V)>)
    requires
        keys_distinct(entries),
    ensures
        table_of(entries).dom().finite(),
        table_of(entries).dom().len() == entries.len(),
    decreases entries.len(),
{
    if entries.len() == 0 {
        assert(table_of(entries).dom() =~= Set::<Seq<char>>::empty());
    } else {
        let n = entries.len() - 1;
        let head = entries.take(n);
        lemma_table_prefix(entries, n);
        lemma_table_size(head);
        lemma_table_push(head, entries[n].0, entries[n].1);
        assert(entries.take(n + 1) =~= entries);
        assert(table_of(entries).dom() =~= table_of(head).dom().insert(entries[n].0@));
        assert(!table_of(head).dom().contains(entries[n].0@));
    }
}

/// A table from text keys to values of type `V`.
pub struct StringTable<V> {
    entries: Vec<(String, V)>,
}

impl<V> View for StringTable<V> {
    type V = Map<Seq<char>, V>;

    open spec fn view(&self) -> Map<Seq<char>, V> {
        table_of(self.entries())
    }
}

impl<V> StringTable<V> {
    #[verifier::type_invariant]
    spec fn well_formed(&self) -> bool {
        keys_distinct(self.entries@)
    }

    /// The entries in the order in which they are walked.
    pub closed spec fn entries(&self) -> Seq<(String, V)> {
        self.entries@
    }

    /// A table without entries.
    pub fn new() -> (table: Self)
        ensures
            table.entries() == Seq::<(String, V)>::empty(),
            table@ == Map::<Seq<char>, V>::empty(),
    {
        let table = StringTable { entries: Vec::new() };
        assert(table@ =~= Map::<Seq<char>, V>::empty());
        table
    }

    /// Number of entries, which is the number of keys.
    pub fn len(&self) -> (n: usize)
        ensures
            n == self.entries().len(),
            n == self@.dom().len(),
            self@.dom().finite(),
            keys_distinct(self.entries()),
    {
        proof {
            use_type_invariant(self);
            lemma_table_size(self.entries@);
        }
        self.entries.len()
    }

    /// Whether the table has no entries.
    pub fn is_empty(&self) -> (r: bool)
        ensures
            r == (self.entries().len() == 0),
            r == (self@ == Map::<Seq<char>, V>::empty()),
    {
        proof {
            if self.entries@.len() > 0 {
                assert(has_key(self.entries@, self.entries@[0].0@));
                assert(self@.contains_key(self.entries@[0].0@));
            } else {
                assert(self@ =~= Map::<Seq<char>, V>::empty());
            }
        }
        self.entries.len() == 0
    }

    /// The key of the entry at position `i`.
    pub fn key_at(&self, i: usize) -> (key: &String)
        requires
            i < self.entries().len(),
        ensures
            *key == self.entries()[i as int].0,
            self@.contains_key(key@),
    {
        proof {
            use_type_invariant(self);
            lemma_table_lookup(self.entries@, i as int);
        }
        &self.entries[i].0
    }

    /// The value of the entry at position `i`.
    pub fn value_at(&self, i: usize) -> (value: &V)
        requires
            i < self.entries().len(),
        ensures
            *value == self.entries()[i as int].1,
            self@[self.entries()[i as int].0@] == *value,
    {
        proof {
            use_type_invariant(self);
            lemma_table_lookup(self.entries@, i as int);
        }
        &self.entries[i].1
    }

    fn find(&self, key: &str) -> (found: Option<usize>)
        ensures
            keys_distinct(self.entries@),
            found is Some <==> has_key(self.entries@, key@),
            found is Some ==> found->0 < self.entries@.len() && self.entries@[found->0 as int].0@
                == key@,
    {
        proof {
            use_type_invariant(self);
        }
        let mut i: usize = 0;
        while i < self.entries.len()
            invariant
                i <= self.entries@.len(),
                keys_distinct(self.entries@),
                forall|j: int| 0 <= j < i ==> (#[trigger] self.entries@[j]).0@ != key@,
            decreases self.entries@.len() - i,
        {
            if str_eq(self.entries[i].0.as_str(), key) {
                return Some(i);
            }
            i += 1;
        }
        None
    }

    /// Whether there is an entry under `key`.
    pub fn contains_key(&self, key: &str) -> (r: bool)
        ensures
            r == self@.contains_key(key@),
    {
        self.find(key).is_some()
    }

    /// The value under `key`, if there is one.
    pub fn get(&self, key: &str) -> (value: Option<&V>)
        ensures
            value is Some <==> self@.contains_key(key@),
            value is Some ==> *value->0 == self@[key@],
    {
        match self.find(key) {
            Some(i) => {
                proof {
                    lemma_table_lookup(self.entries@, i as int);
                }
                Some(&self.entries[i].1)
            },
            None => None,
        }
    }

    /// Stores `value` under `key`, in place of an earlier value if there is
    /// one; every other entry stays as it is.
    pub fn insert(&mut self, key: String, value: V)
        ensures
            final(self)@ == old(self)@.insert(key@, value),
    {
        let found = self.find(key.as_str());
        let mut entries: Vec<(String, V)> = Vec::new();
        std::mem::swap(&mut self.entries, &mut entries);
        match found {
            Some(i) => {
                proof {
                    lemma_table_update(entries@, i as int, key, value);
                }
                entries[i] = (key, value);
            },
            None => {
                proof {
                    lemma_table_push(entries@, key, value);
                }
                entries.push((key, value));
            },
        }
        self.entries = entries;
    }

    /// Takes out the entry under `key`, if there is one; every other entry
    /// stays as it is.
    pub fn remove(&mut self, key: &str) -> (removed: bool)
        ensures
            final(self)@ == old(self)@.remove(key@),
            removed == old(self)@.contains_key(key@),
    {
        match self.find(key) {
            Some(i) => {
                let mut entries: Vec<(String, V)> = Vec::new();
                std::mem::swap(&mut self.entries, &mut entries);
                proof {
                    lemma_table_remove(entries@, i as int);
                }
                entries.remove(i);
                self.entries = entries;
                true
            },
            None => {
                assert(self@ =~= self@.remove(key@));
                false
            },
        }
    }
}

} // verus!
