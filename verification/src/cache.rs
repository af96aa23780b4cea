//! The correction cache: from a token, in lowercase, to the correction that
//! is kept for it.
//!
//! The cache takes its keys as they are given. Whoever fills or asks it
//! passes the token in lowercase.

use crate::table::{lists_keys, without, KeyedTable};
use vstd::prelude::*;

verus! {

/// A correction as the cache holds it.
#[derive(Clone, Debug)]
pub struct CachedCorrection {
    /// The replacement, in the case in which it was last seen.
    pub corrected: String,
    /// The confidence, in thousandths.
    pub confidence: u32,
}

/// What a [`CachedCorrection`] holds.
pub struct CachedView {
    pub corrected: Seq<char>,
    pub confidence: nat,
}

impl View for CachedCorrection {
    type V = CachedView;

    open spec fn view(&self) -> CachedView {
        CachedView { corrected: self.corrected@, confidence: self.confidence as nat }
    }
}

/// The contents of a cache.
pub type Cache = Map<Seq<char>, CachedView>;

/// Whether the cache holds nothing.
pub open spec fn is_empty_cache(cache: Cache) -> bool {
    forall|key: Seq<char>| !cache.contains_key(key)
}

/// The correction under `key` that may be applied under the threshold `min`:
/// the cached one, if its confidence is at least `min`.
pub open spec fn eligible(cache: Cache, min: nat, key: Seq<char>) -> Option<CachedView> {
    if cache.contains_key(key) && cache[key].confidence >= min {
        Some(cache[key])
    } else {
        None
    }
}

/// The keys after a correction has entered under `key`: a new key comes
/// last, a key that the cache held keeps its place.
pub open spec fn listed_with(cache: Cache, order: Seq<Seq<char>>, key: Seq<char>) -> Seq<
    Seq<char>,
> {
    if cache.contains_key(key) {
        order
    } else {
        order.push(key)
    }
}

/// A cache of corrections.
pub struct CorrectionCache {
    entries: KeyedTable<CachedCorrection>,
}

impl View for CorrectionCache {
    type V = Cache;

    closed spec fn view(&self) -> Cache {
        self.entries@.map_values(|c: CachedCorrection| c@)
    }
}

impl CorrectionCache {
    /// The keys, in the order in which they first entered.
    pub closed spec fn order(&self) -> Seq<Seq<char>> {
        self.entries.key_order()
    }

    /// An empty cache.
    pub fn new() -> (cache: Self)
        ensures
            cache@ == Map::<Seq<char>, CachedView>::empty(),
            cache.order() == Seq::<Seq<char>>::empty(),
    {
        let cache = CorrectionCache { entries: KeyedTable::new() };
        assert(cache@ =~= Map::<Seq<char>, CachedView>::empty());
        cache
    }

    /// The number of corrections.
    pub fn len(&self) -> (n: usize)
        ensures
            n == self@.len(),
            n == self.order().len(),
            lists_keys(self@, self.order()),
    {
        let n = self.entries.len();
        assert(self@.dom() =~= self.entries@.dom());
        n
    }

    /// Whether the cache holds nothing.
    pub fn is_empty(&self) -> (empty: bool)
        ensures
            empty == is_empty_cache(self@),
            empty == (self.order().len() == 0),
    {
        let empty = self.entries.is_empty();
        proof {
            assert(self@.dom() =~= self.entries@.dom());
            if !empty {
                let first = self.entries.key_order()[0];
                assert(self.entries.key_order().contains(first));
                assert(self@.contains_key(first));
            }
        }
        empty
    }

    /// Whether a correction is held under `key`.
    pub fn contains(&self, key: &str) -> (held: bool)
        ensures
            held == self@.contains_key(key@),
    {
        assert(self@.dom() =~= self.entries@.dom());
        self.entries.contains_key(key)
    }

    /// The correction under `key`, if one is held.
    pub fn get(&self, key: &str) -> (found: Option<&CachedCorrection>)
        ensures
            found is Some <==> self@.contains_key(key@),
            found is Some ==> found->0@ == self@[key@],
    {
        assert(self@.dom() =~= self.entries@.dom());
        self.entries.get(key)
    }

    /// The correction under `key`, if one is held with a confidence of at
    /// least `min`.
    pub fn lookup(&self, key: &str, min: u32) -> (found: Option<&CachedCorrection>)
        ensures
            found is Some <==> eligible(self@, min as nat, key@) is Some,
            found is Some ==> Some(found->0@) == eligible(self@, min as nat, key@),
    {
        match self.get(key) {
            Some(c) => {
                if c.confidence >= min {
                    Some(c)
                } else {
                    None
                }
            },
            None => None,
        }
    }

    /// Puts a correction under `key`, in place of the one that may be held
    /// there.
    pub fn insert(&mut self, key: String, corrected: String, confidence: u32)
        ensures
            final(self)@ == old(self)@.insert(
                key@,
                CachedView { corrected: corrected@, confidence: confidence as nat },
            ),
            final(self).order() == listed_with(old(self)@, old(self).order(), key@),
    {
        let value = CachedCorrection { corrected, confidence };
        assert(self@.dom() =~= self.entries@.dom());
        self.entries.insert(key, value);
        assert(self@ =~= old(self)@.insert(key@, value@));
    }

    /// Removes the correction under `key`, if one is held.
    pub fn remove(&mut self, key: &str)
        ensures
            final(self)@ == old(self)@.remove(key@),
            final(self).order() == without(old(self).order(), key@),
    {
        self.entries.remove(key);
        assert(self@ =~= old(self)@.remove(key@));
    }

    /// Removes every correction.
    pub fn clear(&mut self)
        ensures
            final(self)@ == Map::<Seq<char>, CachedView>::empty(),
            final(self).order() == Seq::<Seq<char>>::empty(),
    {
        self.entries.clear();
        assert(self@ =~= Map::<Seq<char>, CachedView>::empty());
    }

    /// Every correction with its key: the key, the replacement and the
    /// confidence, in the order in which the keys first entered.
    pub fn entries(&self) -> (all: Vec<(String, String, u32)>)
        ensures
            all.len() == self.order().len(),
            lists_keys(self@, self.order()),
            forall|i: int|
                0 <= i < all.len() ==> {
                    &&& (#[trigger] all[i]).0@ == self.order()[i]
                    &&& all[i].1@ == self@[all[i].0@].corrected
                    &&& all[i].2 == self@[all[i].0@].confidence
                },
    {
        let keys = self.entries.keys();
        assert(self@.dom() =~= self.entries@.dom());
        let mut all: Vec<(String, String, u32)> = Vec::new();
        for i in 0..keys.len()
            invariant
                keys.deep_view() == self.order(),
                lists_keys(self.entries@, self.order()),
                all.len() == i,
                forall|j: int|
                    0 <= j < i ==> {
                        &&& (#[trigger] all[j]).0@ == self.order()[j]
                        &&& all[j].1@ == self@[all[j].0@].corrected
                        &&& all[j].2 == self@[all[j].0@].confidence
                    },
        {
            let key = &keys[i];
            assert(keys.deep_view()[i as int] == key@);
            assert(self.order().contains(key@));
            match self.entries.get(key.as_str()) {
                Some(c) => {
                    all.push((key.clone(), c.corrected.clone(), c.confidence));
                },
                None => {
                    assert(false);
                },
            }
        }
        all
    }
}

} // verus!
