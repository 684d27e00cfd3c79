use vstd::prelude::*;
use crate::identity::Identifier;

verus! {

/// The views of the keys of `entries`, in storage order.
spec fn keys_of<K: Identifier, V>(entries: Seq<(K, V)>) -> Seq<K::V> {
    Seq::new(entries.len(), |i: int| entries[i].0@)
}

/// The map that `entries` stands for: the view of each key is bound to the
/// value stored beside a key with that view.
spec fn map_of<K: Identifier, V>(entries: Seq<(K, V)>) -> Map<K::V, V> {
    Map::new(
        |k: K::V| keys_of(entries).contains(k),
        |k: K::V| entries[keys_of(entries).index_of(k)].1,
    )
}

/// Where no key is repeated, the entry at `i` is the binding of its key.
proof fn lemma_map_of_entry<K: Identifier, V>(entries: Seq<(K, V)>, i: int)
    requires
        keys_of(entries).no_duplicates(),
        0 <= i < entries.len(),
    ensures
        map_of(entries).contains_key(entries[i].0@),
        map_of(entries)[entries[i].0@] == entries[i].1,
{
    let keys = keys_of(entries);
    assert(keys[i] == entries[i].0@);
    let j = keys.index_of(entries[i].0@);
    assert(0 <= j < keys.len() && keys[j] == keys[i]);
}

/// The map of a sequence of entries has a finite domain.
proof fn lemma_map_of_finite<K: Identifier, V>(entries: Seq<(K, V)>)
    ensures
        map_of(entries).dom().finite(),
{
    vstd::seq_lib::seq_to_set_is_finite(keys_of(entries));
    assert(map_of(entries).dom() =~= keys_of(entries).to_set());
}

/// Where no key is repeated, there are as many entries as bound keys.
proof fn lemma_map_of_len<K: Identifier, V>(entries: Seq<(K, V)>)
    requires
        keys_of(entries).no_duplicates(),
    ensures
        map_of(entries).dom().len() == entries.len(),
{
    keys_of(entries).unique_seq_to_set();
    assert(map_of(entries).dom() =~= keys_of(entries).to_set());
}

/// Overwriting the entry at `i` with one under the same key rebinds that key
/// and repeats no key.
proof fn lemma_map_of_update<K: Identifier, V>(entries: Seq<(K, V)>, i: int, key: K, value: V)
    requires
        keys_of(entries).no_duplicates(),
        0 <= i < entries.len(),
        entries[i].0@ == key@,
    ensures
        keys_of(entries.update(i, (key, value))).no_duplicates(),
        map_of(entries.update(i, (key, value))) == map_of(entries).insert(key@, value),
{
    let after = entries.update(i, (key, value));
    assert(keys_of(after) =~= keys_of(entries));
    assert forall|q: K::V| #[trigger] keys_of(after).contains(q) implies map_of(after)[q]
        == map_of(entries).insert(key@, value)[q] by {
        let j = keys_of(after).index_of(q);
        lemma_map_of_entry(after, j);
        if j != i {
            assert(keys_of(entries)[j] == q);
            assert(keys_of(entries)[i] == key@);
            lemma_map_of_entry(entries, j);
        }
    }
    assert(keys_of(entries)[i] == key@);
    assert(map_of(after) =~= map_of(entries).insert(key@, value));
}

/// Appending an entry under a key that is not bound binds that key and
/// repeats no key.
proof fn lemma_map_of_push<K: Identifier, V>(entries: Seq<(K, V)>, key: K, value: V)
    requires
        keys_of(entries).no_duplicates(),
        !keys_of(entries).contains(key@),
    ensures
        keys_of(entries.push((key, value))).no_duplicates(),
        map_of(entries.push((key, value))) == map_of(entries).insert(key@, value),
{
    let after = entries.push((key, value));
    let n = entries.len() as int;
    assert(keys_of(after) =~= keys_of(entries).push(key@));
    assert(keys_of(after)[n] == key@);
    assert forall|q: K::V| #[trigger] keys_of(after).contains(q) implies map_of(after)[q]
        == map_of(entries).insert(key@, value)[q] by {
        let j = keys_of(after).index_of(q);
        lemma_map_of_entry(after, j);
        if j < n {
            lemma_map_of_entry(entries, j);
        }
    }
    assert forall|q: K::V| keys_of(entries).contains(q) implies keys_of(after).contains(q) by {
        let j = keys_of(entries).index_of(q);
        assert(keys_of(after)[j] == q);
    }
    assert(map_of(after) =~= map_of(entries).insert(key@, value));
}

/// Taking out the entry at `i` unbinds its key, keeps every other binding and
/// repeats no key.
proof fn lemma_map_of_remove<K: Identifier, V>(entries: Seq<(K, V)>, i: int)
    requires
        keys_of(entries).no_duplicates(),
        0 <= i < entries.len(),
    ensures
        keys_of(entries.remove(i)).no_duplicates(),
        map_of(entries.remove(i)) == map_of(entries).remove(entries[i].0@),
{
    let after = entries.remove(i);
    let gone = entries[i].0@;
    assert(keys_of(after) =~= keys_of(entries).remove(i));
    assert(keys_of(entries)[i] == gone);
    assert forall|a: int, b: int|
        0 <= a < after.len() && 0 <= b < after.len() && a != b implies keys_of(after)[a]
        != keys_of(after)[b] by {
        let a0 = if a < i { a } else { a + 1 };
        let b0 = if b < i { b } else { b + 1 };
        assert(keys_of(after)[a] == keys_of(entries)[a0]);
        assert(keys_of(after)[b] == keys_of(entries)[b0]);
    }
    assert forall|q: K::V| #[trigger] keys_of(after).contains(q) implies map_of(entries).remove(
        gone,
    ).contains_key(q) && map_of(after)[q] == map_of(entries)[q] by {
        let j = keys_of(after).index_of(q);
        let j0 = if j < i { j } else { j + 1 };
        assert(keys_of(entries)[j0] == q);
        lemma_map_of_entry(after, j);
        lemma_map_of_entry(entries, j0);
    }
    assert forall|q: K::V| keys_of(entries).contains(q) && q != gone implies keys_of(
        after,
    ).contains(q) by {
        let j = keys_of(entries).index_of(q);
        if j < i {
            assert(keys_of(after)[j] == q);
        } else {
            assert(keys_of(after)[j - 1] == q);
        }
    }
    assert(map_of(after) =~= map_of(entries).remove(gone));
}

/// A finite map from identifiers to values, kept as a list of entries in which
/// no key occurs twice. Keys are told apart by their views, so the table
/// stands for a map from key views to values.
#[derive(Debug)]
pub struct Table<K: Identifier, V> {
    entries: Vec<(K, V)>,
}

impl<K: Identifier, V> View for Table<K, V> {
    type V = Map<K::V, V>;

    closed spec fn view(&self) -> Map<K::V, V> {
        map_of(self.entries@)
    }
}

impl<K: Identifier, V> Table<K, V> {
    #[verifier::type_invariant]
    spec fn keys_distinct(&self) -> bool {
        keys_of(self.entries@).no_duplicates()
    }

    /// The domain of a table is finite.
    pub proof fn lemma_finite(&self)
        ensures
            self@.dom().finite(),
    {
        lemma_map_of_finite(self.entries@);
    }

    /// An empty table.
    pub fn new() -> (t: Self)
        ensures
            t@ == Map::<K::V, V>::empty(),
    {
        Table { entries: Vec::new() }
    }

    /// The place of the entry whose key has the view of `key`, if there is one.
    fn position(entries: &Vec<(K, V)>, key: &K) -> (r: Option<usize>)
        ensures
            match r {
                Some(i) => i < entries@.len() && entries@[i as int].0@ == key@,
                None => !keys_of(entries@).contains(key@),
            },
    {
        let mut i: usize = 0;
        while i < entries.len()
            invariant
                i <= entries@.len(),
                forall|j: int| 0 <= j < i ==> entries@[j].0@ != key@,
            decreases entries@.len() - i,
        {
            if entries[i].0.same(key) {
                return Some(i);
            }
            i += 1;
        }
        None
    }

    /// Tells whether `key` is bound.
    pub fn contains_key(&self, key: &K) -> (r: bool)
        ensures
            r == self@.contains_key(key@),
    {
        match Self::position(&self.entries, key) {
            Some(i) => {
                assert(keys_of(self.entries@)[i as int] == key@);
                true
            },
            None => false,
        }
    }

    /// The value bound to `key`, if there is one.
    pub fn get(&self, key: &K) -> (r: Option<&V>)
        ensures
            r == (if self@.contains_key(key@) {
                Some(&self@[key@])
            } else {
                None
            }),
    {
        proof {
            use_type_invariant(self);
        }
        match Self::position(&self.entries, key) {
            Some(i) => {
                proof {
                    lemma_map_of_entry(self.entries@, i as int);
                }
                Some(&self.entries[i].1)
            },
            None => None,
        }
    }

    /// The bindings of the table, each exactly once, in no promised order.
    pub fn entries(&self) -> (list: Vec<(&K, &V)>)
        ensures
            list@.len() == self@.dom().len(),
            forall|i: int|
                0 <= i < list@.len() ==> self@.contains_key((#[trigger] list@[i]).0@)
                    && self@[list@[i].0@] == *list@[i].1,
            forall|i: int, j: int|
                0 <= i < j < list@.len() ==> (#[trigger] list@[i]).0@ != (#[trigger] list@[j]).0@,
    {
        proof {
            use_type_invariant(self);
            lemma_map_of_len(self.entries@);
        }
        let mut list: Vec<(&K, &V)> = Vec::new();
        let mut i: usize = 0;
        while i < self.entries.len()
            invariant
                i <= self.entries@.len(),
                list@.len() == i,
                keys_of(self.entries@).no_duplicates(),
                forall|j: int|
                    0 <= j < i ==> *(#[trigger] list@[j]).0 == self.entries@[j].0 && *list@[j].1
                        == self.entries@[j].1,
            decreases self.entries@.len() - i,
        {
            list.push((&self.entries[i].0, &self.entries[i].1));
            i += 1;
        }
        proof {
            assert forall|j: int| 0 <= j < list@.len() implies self@.contains_key(
                (#[trigger] list@[j]).0@,
            ) && self@[list@[j].0@] == *list@[j].1 by {
                lemma_map_of_entry(self.entries@, j);
            }
            assert forall|a: int, b: int| 0 <= a < b < list@.len() implies (#[trigger] list@[a]).0@
                != (#[trigger] list@[b]).0@ by {
                assert(keys_of(self.entries@)[a] != keys_of(self.entries@)[b]);
            }
        }
        list
    }

    /// Binds `key` to `value`, replacing the value that a key with the same
    /// view was bound to, if there was one.
    pub fn insert(&mut self, key: K, value: V)
        ensures
            final(self)@ == old(self)@.insert(key@, value),
    {
        proof {
            use_type_invariant(&*self);
        }
        let mut entries: Vec<(K, V)> = Vec::new();
        std::mem::swap(&mut entries, &mut self.entries);
        match Self::position(&entries, &key) {
            Some(i) => {
                proof {
                    lemma_map_of_update(entries@, i as int, key, value);
                }
                entries.set(i, (key, value));
            },
            None => {
                proof {
                    lemma_map_of_push(entries@, key, value);
                }
                entries.push((key, value));
            },
        }
        self.entries = entries;
    }

    /// Unbinds `key` and returns the value it was bound to, if there was one.
    pub fn remove(&mut self, key: &K) -> (removed: Option<V>)
        ensures
            final(self)@ == old(self)@.remove(key@),
            removed == old(self)@.get(key@),
    {
        proof {
            use_type_invariant(&*self);
        }
        let mut entries: Vec<(K, V)> = Vec::new();
        std::mem::swap(&mut entries, &mut self.entries);
        let removed = match Self::position(&entries, key) {
            Some(i) => {
                proof {
                    lemma_map_of_entry(entries@, i as int);
                    lemma_map_of_remove(entries@, i as int);
                }
                let entry = entries.remove(i);
                Some(entry.1)
            },
            None => None,
        };
        self.entries = entries;
        removed
    }
}

} // verus!
