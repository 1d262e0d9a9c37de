//! A small map keyed by text, kept in insertion order. It backs the file set
//! and the registries of a project.

use vstd::prelude::*;

verus! {

/// Some entry of `entries` has the key `key`.
pub open spec fn has_key<K, V>(entries: Seq<(K, V)>, key: K) -> bool {
    exists|i: int| 0 <= i < entries.len() && (#[trigger] entries[i]).0 == key
}

/// The index of an entry with the key `key`; meaningful when there is one.
pub open spec fn index_of_key<K, V>(entries: Seq<(K, V)>, key: K) -> int {
    choose|i: int| 0 <= i < entries.len() && (#[trigger] entries[i]).0 == key
}

/// No key stands twice in `entries`.
pub open spec fn distinct_keys<K, V>(entries: Seq<(K, V)>) -> bool {
    forall|i: int, j: int|
        0 <= i < j < entries.len() ==> (#[trigger] entries[i]).0 != (#[trigger] entries[j]).0
}

/// The map that a list of key-value pairs stands for.
pub open spec fn keyed<K, V>(entries: Seq<(K, V)>) -> Map<K, V> {
    Map::new(|key: K| has_key(entries, key), |key: K| entries[index_of_key(entries, key)].1)
}

/// With distinct keys, each entry is what the map holds under its key.
pub proof fn lemma_keyed_at<K, V>(entries: Seq<(K, V)>, i: int)
    requires
        distinct_keys(entries),
        0 <= i < entries.len(),
    ensures
        keyed(entries).contains_key(entries[i].0),
        keyed(entries)[entries[i].0] == entries[i].1,
        index_of_key(entries, entries[i].0) == i,
{
    let found = index_of_key(entries, entries[i].0);
    assert(0 <= found < entries.len() && entries[found].0 == entries[i].0);
}

/// Adding a pair under a new key inserts it into the map.
pub proof fn lemma_keyed_push<K, V>(entries: Seq<(K, V)>, key: K, value: V)
    requires
        distinct_keys(entries),
        !has_key(entries, key),
    ensures
        distinct_keys(entries.push((key, value))),
        keyed(entries.push((key, value))) == keyed(entries).insert(key, value),
{
    let longer = entries.push((key, value));
    assert(distinct_keys(longer)) by {
        assert forall|i: int, j: int| 0 <= i < j < longer.len() implies (#[trigger] longer[i]).0 != (
        #[trigger] longer[j]).0 by {
            if j == entries.len() {
                assert(entries[i].0 != key);
            } else {
                assert(entries[i].0 != entries[j].0);
            }
        }
    }
    assert forall|k: K| has_key(longer, k) <==> (k == key || has_key(entries, k)) by {
        if has_key(longer, k) {
            let i = index_of_key(longer, k);
            if i < entries.len() {
                assert(entries[i].0 == k);
            }
        }
        if k == key {
            assert(longer[entries.len() as int].0 == k);
        }
        if has_key(entries, k) {
            let i = index_of_key(entries, k);
            assert(longer[i].0 == k);
        }
    }
    assert forall|k: K| has_key(longer, k) implies keyed(longer)[k] == keyed(entries).insert(
        key,
        value,
    )[k] by {
        let i = index_of_key(longer, k);
        lemma_keyed_at(longer, i);
        if i < entries.len() {
            lemma_keyed_at(entries, i);
        }
    }
    assert(keyed(longer) =~= keyed(entries).insert(key, value));
}

/// Giving the entry at `i` a new value overwrites what the map holds under
/// its key, and nothing else.
pub proof fn lemma_keyed_update<K, V>(entries: Seq<(K, V)>, i: int, value: V)
    requires
        distinct_keys(entries),
        0 <= i < entries.len(),
    ensures
        distinct_keys(entries.update(i, (entries[i].0, value))),
        keyed(entries.update(i, (entries[i].0, value))) == keyed(entries).insert(
            entries[i].0,
            value,
        ),
{
    let key = entries[i].0;
    let changed = entries.update(i, (key, value));
    assert(distinct_keys(changed)) by {
        assert forall|a: int, b: int| 0 <= a < b < changed.len() implies (#[trigger] changed[a]).0
            != (#[trigger] changed[b]).0 by {
            assert(entries[a].0 != entries[b].0);
        }
    }
    assert forall|k: K| has_key(changed, k) <==> has_key(entries, k) by {
        if has_key(changed, k) {
            let a = index_of_key(changed, k);
            assert(entries[a].0 == k);
        }
        if has_key(entries, k) {
            let a = index_of_key(entries, k);
            assert(changed[a].0 == k);
        }
    }
    assert(has_key(entries, key)) by {
        assert(entries[i].0 == key);
    }
    assert forall|k: K| has_key(changed, k) implies keyed(changed)[k] == keyed(entries).insert(
        key,
        value,
    )[k] by {
        let a = index_of_key(changed, k);
        lemma_keyed_at(changed, a);
        lemma_keyed_at(entries, a);
    }
    assert(keyed(changed) =~= keyed(entries).insert(key, value));
}

/// A map from text keys to values. Keys are compared by their characters;
/// entries keep the order in which their keys were first put.
pub struct Table<V: View> {
    entries: Vec<(String, V)>,
}

impl<V: View> View for Table<V> {
    type V = Map<Seq<char>, V::V>;

    closed spec fn view(&self) -> Map<Seq<char>, V::V> {
        keyed(self.pairs())
    }
}

impl<V: View> Table<V> {
    /// The entries in order, each as its key and its value's view.
    pub closed spec fn pairs(&self) -> Seq<(Seq<char>, V::V)> {
        self.entries@.map_values(|entry: (String, V)| (entry.0@, entry.1@))
    }

    #[verifier::type_invariant]
    spec fn well_formed(&self) -> bool {
        distinct_keys(self.pairs())
    }

    /// The map is the one that the entries stand for.
    pub proof fn lemma_view_is_keyed(&self)
        ensures
            self@ == keyed(self.pairs()),
    {
    }

    /// An empty table.
    pub fn new() -> (table: Self)
        ensures
            table@ == Map::<Seq<char>, V::V>::empty(),
            table.pairs() == Seq::<(Seq<char>, V::V)>::empty(),
    {
        Table { entries: Vec::new() }
    }

    /// The number of entries. No key stands twice among them.
    pub fn len(&self) -> (n: usize)
        ensures
            n == self.pairs().len(),
            distinct_keys(self.pairs()),
    {
        proof {
            use_type_invariant(self);
        }
        self.entries.len()
    }

    /// The index of the entry under `key`, if there is one.
    pub fn position(&self, key: &str) -> (found: Option<usize>)
        ensures
            match found {
                Some(i) => i < self.pairs().len() && self.pairs()[i as int].0 == key@,
                None => !self@.contains_key(key@),
            },
            found is Some <==> self@.contains_key(key@),
    {
        let wanted = key.to_owned();
        let mut i: usize = 0;
        while i < self.entries.len()
            invariant
                i <= self.entries.len(),
                wanted@ == key@,
                forall|j: int| 0 <= j < i ==> (#[trigger] self.pairs()[j]).0 != key@,
            decreases self.entries.len() - i,
        {
            if self.entries[i].0 == wanted {
                assert(self.pairs()[i as int].0 == key@);
                return Some(i);
            }
            i += 1;
        }
        None
    }

    /// The value under `key`, if there is one.
    pub fn get(&self, key: &str) -> (value: Option<&V>)
        ensures
            match value {
                Some(v) => self@.contains_key(key@) && self@[key@] == v@,
                None => !self@.contains_key(key@),
            },
    {
        match self.position(key) {
            Some(i) => {
                proof {
                    use_type_invariant(self);
                    lemma_keyed_at(self.pairs(), i as int);
                }
                Some(&self.entries[i].1)
            },
            None => None,
        }
    }

    /// The entry at `index` in insertion order, or `None` past the end.
    pub fn entry(&self, index: usize) -> (found: Option<(&String, &V)>)
        ensures
            match found {
                Some((key, value)) => index < self.pairs().len() && self.pairs()[index as int] == (
                    key@,
                    value@,
                ),
                None => index >= self.pairs().len(),
            },
    {
        if index < self.entries.len() {
            Some((&self.entries[index].0, &self.entries[index].1))
        } else {
            None
        }
    }

    /// Puts `value` under `key`: an entry with that key gets the new value
    /// and keeps its place, a new key goes to the end.
    pub fn put(&mut self, key: &str, value: V)
        ensures
            final(self)@ == old(self)@.insert(key@, value@),
            final(self).pairs() == (if old(self)@.contains_key(key@) {
                old(self).pairs().update(
                    index_of_key(old(self).pairs(), key@),
                    (key@, value@),
                )
            } else {
                old(self).pairs().push((key@, value@))
            }),
    {
        proof {
            use_type_invariant(&*self);
        }
        let found = self.position(key);
        let ghost before = self.pairs();
        // The entries leave the table while they change, so that the table
        // is well formed at every step.
        let mut entries: Vec<(String, V)> = Vec::new();
        core::mem::swap(&mut self.entries, &mut entries);
        match found {
            Some(i) => {
                proof {
                    lemma_keyed_at(before, i as int);
                    lemma_keyed_update(before, i as int, value@);
                }
                entries.set(i, (key.to_owned(), value));
            },
            None => {
                proof {
                    lemma_keyed_push(before, key@, value@);
                }
                entries.push((key.to_owned(), value));
            },
        }
        proof {
            let after = entries@.map_values(|entry: (String, V)| (entry.0@, entry.1@));
            if found is Some {
                assert(after =~= before.update(found->0 as int, (key@, value@)));
            } else {
                assert(after =~= before.push((key@, value@)));
            }
        }
        self.entries = entries;
    }
}

} // verus!
