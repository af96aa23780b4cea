//! A table keyed by strings that remembers the order in which its keys came.
//!
//! Lookups go through a hash map. The keys are listed once more in a vector,
//! so that the table can be walked, in an order that does not depend on the
//! hasher.

use vstd::hash_map::StringHashMap;
use vstd::prelude::*;

verus! {

/// A map from strings to values, with its keys listed in the order in which
/// they were first inserted.
#[verifier::reject_recursive_types(V)]
pub struct KeyedTable<V> {
    map: StringHashMap<V>,
    keys: Vec<String>,
}

/// Whether `keys` lists the keys of `map`, each of them once.
pub open spec fn lists_keys<V>(map: Map<Seq<char>, V>, keys: Seq<Seq<char>>) -> bool {
    &&& keys.no_duplicates()
    &&& forall|k: Seq<char>| map.contains_key(k) <==> keys.contains(k)
}

/// The list without `key`.
pub open spec fn without(keys: Seq<Seq<char>>, key: Seq<char>) -> Seq<Seq<char>> {
    if keys.contains(key) {
        keys.remove(keys.index_of(key))
    } else {
        keys
    }
}

/// A map whose keys can be listed has as many entries as the list is long.
pub proof fn lemma_listed_len<V>(map: Map<Seq<char>, V>, keys: Seq<Seq<char>>)
    requires
        lists_keys(map, keys),
    ensures
        map.dom().finite(),
        map.len() == keys.len(),
{
    keys.unique_seq_to_set();
    vstd::seq_lib::seq_to_set_is_finite(keys);
    assert(map.dom() =~= keys.to_set());
}

fn insert_entry<V>(map: &mut StringHashMap<V>, keys: &mut Vec<String>, key: String, value: V)
    requires
        lists_keys(old(map)@, old(keys).deep_view()),
    ensures
        lists_keys(final(map)@, final(keys).deep_view()),
        final(map)@ == old(map)@.insert(key@, value),
        final(keys).deep_view() == if old(map)@.contains_key(key@) {
            old(keys).deep_view()
        } else {
            old(keys).deep_view().push(key@)
        },
{
    let ghost before = keys.deep_view();
    if !map.contains_key(key.as_str()) {
        keys.push(key.clone());
        assert(keys.deep_view() =~= before.push(key@));
        assert(!before.contains(key@));
    }
    map.insert(key, value);
    let ghost after = keys.deep_view();
    assert forall|k: Seq<char>| map@.contains_key(k) <==> after.contains(k) by {
        if after.contains(k) {
            let i = choose|i: int| 0 <= i < after.len() && after[i] == k;
            if i < before.len() {
                assert(before[i] == k);
            }
        }
        if before.contains(k) {
            let i = choose|i: int| 0 <= i < before.len() && before[i] == k;
            assert(after[i] == k);
        }
        if k == key@ && !old(map)@.contains_key(key@) {
            assert(after[before.len() as int] == k);
        }
    }
}

fn remove_entry<V>(map: &mut StringHashMap<V>, keys: &mut Vec<String>, key: &str)
    requires
        lists_keys(old(map)@, old(keys).deep_view()),
    ensures
        lists_keys(final(map)@, final(keys).deep_view()),
        final(map)@ == old(map)@.remove(key@),
        final(keys).deep_view() == without(old(keys).deep_view(), key@),
{
    let ghost before = keys.deep_view();
    if !map.contains_key(key) {
        assert(map@.remove(key@) =~= map@);
        return;
    }
    let wanted = key.to_owned();
    let mut at: usize = 0;
    while at < keys.len() && !(keys[at] == wanted)
        invariant
            wanted@ == key@,
            keys.deep_view() == before,
            at <= keys.len(),
            forall|i: int| 0 <= i < at ==> #[trigger] before[i] != key@,
        decreases keys.len() - at,
    {
        at += 1;
    }
    proof {
        assert(before.contains(key@));
        let i = before.index_of(key@);
        assert(0 <= i < before.len() && before[i] == key@);
        assert(at < keys.len());
        assert(before[at as int] == key@);
        assert(i == at);
    }
    keys.remove(at);
    map.remove(key);
    proof {
        let after = keys.deep_view();
        assert(after =~= before.remove(at as int));
        assert forall|k: Seq<char>| map@.contains_key(k) <==> after.contains(k) by {
            if after.contains(k) {
                let i = choose|i: int| 0 <= i < after.len() && after[i] == k;
                if i < at {
                    assert(before[i] == k);
                } else {
                    assert(before[i + 1] == k);
                }
            }
            if before.contains(k) && k != key@ {
                let i = choose|i: int| 0 <= i < before.len() && before[i] == k;
                if i < at {
                    assert(after[i] == k);
                } else {
                    assert(after[i - 1] == k);
                }
            }
        }
    }
}

impl<V> View for KeyedTable<V> {
    type V = Map<Seq<char>, V>;

    closed spec fn view(&self) -> Map<Seq<char>, V> {
        self.map@
    }
}

impl<V> KeyedTable<V> {
    #[verifier::type_invariant]
    spec fn listed(&self) -> bool {
        lists_keys(self.map@, self.keys.deep_view())
    }

    /// The keys in the order in which they were first inserted.
    pub closed spec fn key_order(&self) -> Seq<Seq<char>> {
        self.keys.deep_view()
    }

    /// An empty table.
    pub fn new() -> (table: Self)
        ensures
            table@ == Map::<Seq<char>, V>::empty(),
            table.key_order() == Seq::<Seq<char>>::empty(),
    {
        let table = KeyedTable { map: StringHashMap::new(), keys: Vec::new() };
        assert(table.keys.deep_view() =~= Seq::<Seq<char>>::empty());
        table
    }

    /// The number of entries.
    pub fn len(&self) -> (n: usize)
        ensures
            n == self@.len(),
            n == self.key_order().len(),
            lists_keys(self@, self.key_order()),
            self@.dom().finite(),
    {
        proof {
            use_type_invariant(self);
            lemma_listed_len(self.map@, self.keys.deep_view());
        }
        self.keys.len()
    }

    /// Whether the table holds nothing.
    pub fn is_empty(&self) -> (empty: bool)
        ensures
            empty == (self@ == Map::<Seq<char>, V>::empty()),
            empty == (self.key_order().len() == 0),
            lists_keys(self@, self.key_order()),
    {
        proof {
            use_type_invariant(self);
            let keys = self.keys.deep_view();
            if keys.len() == 0 {
                assert forall|k: Seq<char>| !self.map@.contains_key(k) by {
                    assert(!keys.contains(k));
                }
                assert(self.map@ =~= Map::<Seq<char>, V>::empty());
            } else {
                assert(keys.contains(keys[0]));
            }
        }
        self.keys.len() == 0
    }

    /// Whether `key` has a value.
    pub fn contains_key(&self, key: &str) -> (held: bool)
        ensures
            held == self@.contains_key(key@),
    {
        self.map.contains_key(key)
    }

    /// The value of `key`, if it has one.
    pub fn get(&self, key: &str) -> (value: Option<&V>)
        ensures
            match value {
                Some(v) => self@.contains_key(key@) && *v == self@[key@],
                None => !self@.contains_key(key@),
            },
    {
        self.map.get(key)
    }

    /// The keys, in the order in which they were first inserted.
    pub fn keys(&self) -> (keys: &Vec<String>)
        ensures
            keys.deep_view() == self.key_order(),
            lists_keys(self@, self.key_order()),
    {
        proof {
            use_type_invariant(self);
        }
        &self.keys
    }

    /// Sets the value of `key`, which becomes the last key if it is new.
    pub fn insert(&mut self, key: String, value: V)
        ensures
            final(self)@ == old(self)@.insert(key@, value),
            final(self).key_order() == if old(self)@.contains_key(key@) {
                old(self).key_order()
            } else {
                old(self).key_order().push(key@)
            },
    {
        let mut taken = KeyedTable::new();
        core::mem::swap(self, &mut taken);
        proof {
            use_type_invariant(&taken);
        }
        let KeyedTable { mut map, mut keys } = taken;
        insert_entry(&mut map, &mut keys, key, value);
        *self = KeyedTable { map, keys };
    }

    /// Removes `key` and its value, if it has one.
    pub fn remove(&mut self, key: &str)
        ensures
            final(self)@ == old(self)@.remove(key@),
            final(self).key_order() == without(old(self).key_order(), key@),
    {
        let mut taken = KeyedTable::new();
        core::mem::swap(self, &mut taken);
        proof {
            use_type_invariant(&taken);
        }
        let KeyedTable { mut map, mut keys } = taken;
        remove_entry(&mut map, &mut keys, key);
        *self = KeyedTable { map, keys };
    }

    /// Removes every entry.
    pub fn clear(&mut self)
        ensures
            final(self)@ == Map::<Seq<char>, V>::empty(),
            final(self).key_order() == Seq::<Seq<char>>::empty(),
    {
        *self = KeyedTable::new();
    }
}

} // verus!
