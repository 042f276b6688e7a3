//! A string-keyed table that keeps its entries in insertion order and never
//! holds a key twice. It is what the adapters and the manager use where a
//! hash map keyed by a string would otherwise stand.
use vstd::prelude::*;

verus! {

/// Some entry of `s` has key `k`.
pub open spec fn has_key<V>(s: Seq<(Seq<char>, V)>, k: Seq<char>) -> bool {
    exists|i: int| 0 <= i < s.len() && #[trigger] s[i].0 == k
}

/// No key occurs twice in `s`.
pub open spec fn keys_unique<V>(s: Seq<(Seq<char>, V)>) -> bool {
    forall|i: int, j: int| 0 <= i < j < s.len() ==> #[trigger] s[i].0 != #[trigger] s[j].0
}

/// The position of key `k` in `s` (meaningful when `has_key(s, k)`).
pub open spec fn key_index<V>(s: Seq<(Seq<char>, V)>, k: Seq<char>) -> int {
    choose|i: int| 0 <= i < s.len() && #[trigger] s[i].0 == k
}

/// The value stored under `k` (meaningful when `has_key(s, k)`).
pub open spec fn value_for<V>(s: Seq<(Seq<char>, V)>, k: Seq<char>) -> V {
    s[key_index(s, k)].1
}

/// The entries after storing `v` under `k`: an existing entry for `k` is
/// overwritten in place, otherwise the new entry goes to the end.
pub open spec fn insert_entry<V>(s: Seq<(Seq<char>, V)>, k: Seq<char>, v: V) -> Seq<(Seq<char>, V)> {
    if has_key(s, k) {
        s.update(key_index(s, k), (k, v))
    } else {
        s.push((k, v))
    }
}

/// The value under `k`, if any.
pub open spec fn lookup<V>(s: Seq<(Seq<char>, V)>, k: Seq<char>) -> Option<V> {
    if has_key(s, k) {
        Some(value_for(s, k))
    } else {
        None
    }
}

/// The value of the first entry of `s` with key `k`, if any.
pub open spec fn first_value<V>(s: Seq<(Seq<char>, V)>, k: Seq<char>) -> Option<V>
    decreases s.len(),
{
    if s.len() == 0 {
        None
    } else if s[0].0 == k {
        Some(s[0].1)
    } else {
        first_value(s.drop_first(), k)
    }
}

/// With unique keys, the entry found at `i` is the one `key_index` names.
pub proof fn lemma_key_index_unique<V>(s: Seq<(Seq<char>, V)>, i: int)
    requires
        keys_unique(s),
        0 <= i < s.len(),
    ensures
        has_key(s, s[i].0),
        key_index(s, s[i].0) == i,
        value_for(s, s[i].0) == s[i].1,
{
    let k = s[i].0;
    assert(s[i].0 == k);
    let j = key_index(s, k);
    if j < i {
        assert(s[j].0 != s[i].0);
    } else if i < j {
        assert(s[i].0 != s[j].0);
    }
}

/// Storing a value keeps the keys unique, makes the key present with that
/// value, and leaves every other key and its value as it was.
pub proof fn lemma_insert_entry<V>(s: Seq<(Seq<char>, V)>, k: Seq<char>, v: V)
    requires
        keys_unique(s),
    ensures
        keys_unique(insert_entry(s, k, v)),
        has_key(insert_entry(s, k, v), k),
        value_for(insert_entry(s, k, v), k) == v,
        forall|k2: Seq<char>|
            k2 != k ==> (has_key(insert_entry(s, k, v), k2) == has_key(s, k2) && (has_key(s, k2)
                ==> value_for(insert_entry(s, k, v), k2) == value_for(s, k2))),
{
    let t = insert_entry(s, k, v);
    if has_key(s, k) {
        let i = key_index(s, k);
        assert forall|a: int, b: int| 0 <= a < b < t.len() implies #[trigger] t[a].0
            != #[trigger] t[b].0 by {
            assert(s[a].0 != s[b].0);
        }
        lemma_key_index_unique(t, i);
        assert forall|k2: Seq<char>| k2 != k implies (has_key(t, k2) == has_key(s, k2) && (
        has_key(s, k2) ==> value_for(t, k2) == value_for(s, k2))) by {
            if has_key(s, k2) {
                let j = key_index(s, k2);
                assert(t[j].0 == k2);
                lemma_key_index_unique(s, j);
                lemma_key_index_unique(t, j);
            }
            if has_key(t, k2) {
                let j = key_index(t, k2);
                assert(s[j].0 == k2);
            }
        }
    } else {
        assert forall|a: int, b: int| 0 <= a < b < t.len() implies #[trigger] t[a].0
            != #[trigger] t[b].0 by {
            if b == s.len() {
                assert(s[a].0 == t[a].0);
            } else {
                assert(s[a].0 != s[b].0);
            }
        }
        lemma_key_index_unique(t, s.len() as int);
        assert forall|k2: Seq<char>| k2 != k implies (has_key(t, k2) == has_key(s, k2) && (
        has_key(s, k2) ==> value_for(t, k2) == value_for(s, k2))) by {
            if has_key(s, k2) {
                let j = key_index(s, k2);
                assert(t[j].0 == k2);
                lemma_key_index_unique(s, j);
                lemma_key_index_unique(t, j);
            }
            if has_key(t, k2) {
                let j = key_index(t, k2);
                assert(s[j].0 == k2);
            }
        }
    }
}

/// Entries keyed by strings, in insertion order, each key at most once.
pub struct KeyedList<V> {
    items: Vec<(String, V)>,
}

impl<V> KeyedList<V> {
    /// The entries, each key taken by its characters.
    pub closed spec fn entries(&self) -> Seq<(Seq<char>, V)> {
        self.items@.map_values(|e: (String, V)| (e.0@, e.1))
    }

    #[verifier::type_invariant]
    spec fn wf(&self) -> bool {
        keys_unique(self.entries())
    }

    /// An empty table.
    pub fn new() -> (r: Self)
        ensures
            r.entries() == Seq::<(Seq<char>, V)>::empty(),
            keys_unique(r.entries()),
    {
        let r = KeyedList { items: Vec::new() };
        assert(r.entries() =~= Seq::<(Seq<char>, V)>::empty());
        r
    }

    /// The number of entries.
    pub fn len(&self) -> (r: usize)
        ensures
            r == self.entries().len(),
            keys_unique(self.entries()),
    {
        proof {
            use_type_invariant(self);
        }
        self.items.len()
    }

    /// Whether the table has no entries.
    pub fn is_empty(&self) -> (r: bool)
        ensures
            r == (self.entries().len() == 0),
    {
        self.items.len() == 0
    }

    /// The position of `key`, if it is present.
    pub fn index_of(&self, key: &str) -> (r: Option<usize>)
        ensures
            match r {
                Some(i) => i < self.entries().len() && self.entries()[i as int].0 == key@
                    && key_index(self.entries(), key@) == i,
                None => !has_key(self.entries(), key@),
            },
            keys_unique(self.entries()),
    {
        proof {
            use_type_invariant(self);
        }
        let n = self.items.len();
        let mut i: usize = 0;
        while i < n
            invariant
                n == self.items@.len(),
                n == self.entries().len(),
                i <= n,
                keys_unique(self.entries()),
                forall|j: int| 0 <= j < i ==> self.entries()[j].0 != key@,
            decreases n - i,
        {
            if crate::text::same_text(self.items[i].0.as_str(), key) {
                proof {
                    assert(self.entries()[i as int].0 == key@);
                    lemma_key_index_unique(self.entries(), i as int);
                }
                return Some(i);
            }
            i = i + 1;
        }
        None
    }

    /// Whether `key` is present.
    pub fn contains_key(&self, key: &str) -> (r: bool)
        ensures
            r == has_key(self.entries(), key@),
    {
        match self.index_of(key) {
            Some(_) => true,
            None => false,
        }
    }

    /// The value stored under `key`, if any.
    pub fn get(&self, key: &str) -> (r: Option<&V>)
        ensures
            match r {
                Some(v) => has_key(self.entries(), key@) && *v == value_for(self.entries(), key@),
                None => !has_key(self.entries(), key@),
            },
    {
        match self.index_of(key) {
            Some(i) => Some(&self.items[i].1),
            None => None,
        }
    }

    /// The value stored under `key`, taken out of the table.
    pub fn into_value(self, key: &str) -> (r: Option<V>)
        ensures
            r == lookup(self.entries(), key@),
    {
        match self.index_of(key) {
            Some(i) => {
                proof {
                    lemma_key_index_unique(self.entries(), i as int);
                }
                let mut items = self.items;
                let (_, v) = items.remove(i);
                Some(v)
            },
            None => None,
        }
    }

    /// The key of entry `i`.
    pub fn key_at(&self, i: usize) -> (r: &str)
        requires
            i < self.entries().len(),
        ensures
            r@ == self.entries()[i as int].0,
    {
        self.items[i].0.as_str()
    }

    /// The value of entry `i`.
    pub fn value_at(&self, i: usize) -> (r: &V)
        requires
            i < self.entries().len(),
        ensures
            *r == self.entries()[i as int].1,
    {
        &self.items[i].1
    }

    /// Stores `value` under `key`, in place of an earlier value for that key.
    pub fn insert(&mut self, key: String, value: V)
        ensures
            final(self).entries() == insert_entry(old(self).entries(), key@, value),
            keys_unique(final(self).entries()),
    {
        proof {
            use_type_invariant(&*self);
        }
        let ghost before = self.entries();
        match self.index_of(key.as_str()) {
            Some(i) => {
                let _ = self.replace_value(i, value);
            },
            None => {
                proof {
                    lemma_insert_entry(before, key@, value);
                }
                let ghost k = key@;
                let mut items = Vec::new();
                std::mem::swap(&mut items, &mut self.items);
                items.push((key, value));
                assert(items@.map_values(|e: (String, V)| (e.0@, e.1)) =~= before.push((k, value)));
                self.items = items;
            },
        }
    }

    /// Puts `value` in entry `i` in place of its value, which is returned;
    /// the key stays.
    pub fn replace_value(&mut self, i: usize, value: V) -> (r: V)
        requires
            i < old(self).entries().len(),
        ensures
            r == old(self).entries()[i as int].1,
            final(self).entries() == old(self).entries().update(
                i as int,
                (old(self).entries()[i as int].0, value),
            ),
            keys_unique(final(self).entries()),
    {
        proof {
            use_type_invariant(&*self);
        }
        let ghost before = self.entries();
        let mut items = Vec::new();
        std::mem::swap(&mut items, &mut self.items);
        let (k, old_value) = items.remove(i);
        items.insert(i, (k, value));
        proof {
            let after = items@.map_values(|e: (String, V)| (e.0@, e.1));
            assert(after =~= before.update(i as int, (before[i as int].0, value)));
            assert forall|a: int, b: int| 0 <= a < b < after.len() implies #[trigger] after[a].0
                != #[trigger] after[b].0 by {
                assert(before[a].0 != before[b].0);
            }
        }
        self.items = items;
        old_value
    }
}

impl<V: Clone> Clone for KeyedList<V> {
    /// A copy with the same keys in the same order, each value cloned.
    fn clone(&self) -> (r: Self)
        ensures
            r.entries().len() == self.entries().len(),
            forall|i: int|
                0 <= i < self.entries().len() ==> (#[trigger] r.entries()[i]).0 == self.entries()[i].0
                    && cloned(self.entries()[i].1, r.entries()[i].1),
    {
        proof {
            use_type_invariant(self);
        }
        let n = self.items.len();
        let mut items: Vec<(String, V)> = Vec::new();
        let mut i: usize = 0;
        while i < n
            invariant
                n == self.items@.len(),
                n == self.entries().len(),
                keys_unique(self.entries()),
                i <= n,
                items@.len() == i,
                forall|j: int|
                    0 <= j < i ==> (#[trigger] items@[j]).0@ == self.entries()[j].0 && cloned(
                        self.entries()[j].1,
                        items@[j].1,
                    ),
            decreases n - i,
        {
            let entry = (self.items[i].0.clone(), self.items[i].1.clone());
            items.push(entry);
            i = i + 1;
        }
        let r = KeyedList { items };
        assert forall|a: int, b: int| 0 <= a < b < r.entries().len() implies #[trigger] r.entries()[a].0
            != #[trigger] r.entries()[b].0 by {
            assert(items@[a].0@ == self.entries()[a].0);
            assert(items@[b].0@ == self.entries()[b].0);
        }
        r
    }
}

} // verus!
