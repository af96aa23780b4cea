//! The learning engine: it keeps a cache of corrections, rewrites new text
//! with it, and learns corrections from the edits that a user makes.
//!
//! The engine does no input or output. The caller reads the store and hands
//! over what it read; and where the engine learns, the caller writes each
//! record to the store and tells the engine how that went.

use crate::cache::{is_empty_cache, listed_with, Cache, CachedView, CorrectionCache};
use crate::case::match_case;
use crate::chars::lowercased;
use crate::correction::{
    confidence_of, Correction, CorrectionSource, CorrectionView, CONFIDENCE_SCALE,
    MIN_AUTO_APPLY_CONFIDENCE,
};
use crate::detect::{detect_corrections, detected, LearnedCorrection, LearnedView};
use crate::error::StorageError;
use crate::rewrite::{
    applied, corrected_text, corrections_in, is_applied, replaced, replacement, AppliedCorrection,
    AppliedView,
};
use crate::table::{lists_keys, without};
use crate::tokens::{join_words, tokenize};
use vstd::prelude::*;

verus! {

/// The record that goes to the store for a correction found in an edit.
pub open spec fn record_of(learned: LearnedView) -> CorrectionView {
    CorrectionView {
        original: lowercased(learned.original),
        corrected: learned.corrected,
        source: CorrectionSource::UserEdit,
        occurrences: 1,
        confidence: confidence_of(1),
    }
}

/// The cache after the store has taken a correction and reports the
/// confidence that the correction now has: the correction enters the cache
/// if that confidence reaches `min`.
pub open spec fn promoted(cache: Cache, min: nat, learned: LearnedView, confidence: nat) -> Cache {
    if confidence >= min {
        cache.insert(
            lowercased(learned.original),
            CachedView { corrected: learned.corrected, confidence },
        )
    } else {
        cache
    }
}

/// The cached tokens after [`promoted`].
pub open spec fn promoted_order(
    cache: Cache,
    order: Seq<Seq<char>>,
    min: nat,
    learned: LearnedView,
    confidence: nat,
) -> Seq<Seq<char>> {
    if confidence >= min {
        listed_with(cache, order, lowercased(learned.original))
    } else {
        order
    }
}

/// The cached tokens of [`loaded_cache`], in the order in which the records
/// bring them first.
pub open spec fn loaded_order(records: Seq<CorrectionView>) -> Seq<Seq<char>>
    decreases records.len(),
{
    if records.len() == 0 {
        Seq::empty()
    } else {
        listed_with(
            loaded_cache(records.drop_last()),
            loaded_order(records.drop_last()),
            lowercased(records.last().original),
        )
    }
}

/// The cache that a list of stored corrections fills: each record enters
/// under the lowercase form of its original token, a later record in place
/// of an earlier one for the same token.
pub open spec fn loaded_cache(records: Seq<CorrectionView>) -> Cache
    decreases records.len(),
{
    if records.len() == 0 {
        Map::empty()
    } else {
        let record = records.last();
        loaded_cache(records.drop_last()).insert(
            lowercased(record.original),
            CachedView { corrected: record.corrected, confidence: record.confidence },
        )
    }
}

/// What to do when the stored corrections cannot be read while an engine is
/// made.
#[derive(Clone, Copy, Debug, PartialEq, Eq, Structural)]
pub enum LoadFailure {
    /// Start with an empty cache.
    StartEmpty,
    /// Give the failure to the caller.
    Propagate,
}

/// The progress of learning from one edit.
///
/// The corrections that the edit shows are fixed when learning begins. They
/// go to the store one by one, in order; the caller does the storing, and
/// tells the engine how each attempt ended. Learning ends when all are
/// stored, or when one attempt has failed.
pub struct LearnSession {
    found: Vec<LearnedCorrection>,
    stored: usize,
    failure: Option<StorageError>,
}

impl LearnSession {
    #[verifier::type_invariant]
    spec fn counted(&self) -> bool {
        self.stored <= self.found.len()
    }

    /// The corrections that the edit shows.
    pub closed spec fn found(&self) -> Seq<LearnedView> {
        self.found.deep_view()
    }

    /// How many of them the store has taken.
    pub closed spec fn stored(&self) -> nat {
        self.stored as nat
    }

    /// The failure that ended learning, if one did.
    pub closed spec fn failure(&self) -> Option<Seq<char>> {
        match self.failure {
            Some(e) => Some(e@),
            None => None,
        }
    }

    /// Whether a correction waits to be stored.
    pub open spec fn is_pending(&self) -> bool {
        self.failure() is None && self.stored() < self.found().len()
    }

    /// The record to hand to the store next, or `None` when learning has
    /// ended.
    pub fn next_save(&self) -> (record: Option<Correction>)
        ensures
            record is Some <==> self.is_pending(),
            record is Some ==> record->0@ == record_of(self.found()[self.stored() as int]),
    {
        proof {
            use_type_invariant(self);
        }
        if self.failure.is_some() || self.stored >= self.found.len() {
            return None;
        }
        let learned = &self.found[self.stored];
        Some(
            Correction::new(
                learned.original.as_str().to_lowercase(),
                learned.corrected.clone(),
                CorrectionSource::UserEdit,
            ),
        )
    }

    /// Ends learning: the failure, if an attempt to store failed, and else
    /// the corrections that were stored.
    pub fn finish(self) -> (learned: Result<Vec<LearnedCorrection>, StorageError>)
        ensures
            match learned {
                Ok(list) => self.failure() is None && list.deep_view() == self.found().take(
                    self.stored() as int,
                ),
                Err(e) => self.failure() == Some(e@),
            },
    {
        proof {
            use_type_invariant(&self);
        }
        let LearnSession { found, stored, failure } = self;
        match failure {
            Some(e) => Err(e),
            None => {
                let mut list = found;
                let ghost before = list.deep_view();
                list.truncate(stored);
                assert(list.deep_view() =~= before.take(stored as int));
                Ok(list)
            },
        }
    }
}

/// Learns corrections from edits and applies them to new text.
pub struct LearningEngine {
    corrections: CorrectionCache,
    min_confidence: u32,
}

impl Default for LearningEngine {
    fn default() -> (engine: Self)
        ensures
            engine.cache() == Map::<Seq<char>, CachedView>::empty(),
            engine.cached_tokens() == Seq::<Seq<char>>::empty(),
            engine.threshold() == MIN_AUTO_APPLY_CONFIDENCE,
    {
        Self::new()
    }
}

impl LearningEngine {
    /// The cache.
    pub closed spec fn cache(&self) -> Cache {
        self.corrections@
    }

    /// The cached tokens, in the order in which they were first cached.
    pub closed spec fn cached_tokens(&self) -> Seq<Seq<char>> {
        self.corrections.order()
    }

    /// The least confidence at which a cached correction is applied.
    pub closed spec fn threshold(&self) -> nat {
        self.min_confidence as nat
    }

    /// An engine with an empty cache and the default threshold.
    pub fn new() -> (engine: Self)
        ensures
            engine.cache() == Map::<Seq<char>, CachedView>::empty(),
            engine.cached_tokens() == Seq::<Seq<char>>::empty(),
            engine.threshold() == MIN_AUTO_APPLY_CONFIDENCE,
    {
        LearningEngine {
            corrections: CorrectionCache::new(),
            min_confidence: MIN_AUTO_APPLY_CONFIDENCE,
        }
    }

    /// Sets the least confidence at which a cached correction is applied. A
    /// confidence above 1 counts as 1. The cache stays as it is: what it
    /// holds is judged by the new threshold from now on.
    pub fn set_min_confidence(&mut self, confidence: u32)
        ensures
            final(self).threshold() == if confidence <= CONFIDENCE_SCALE {
                confidence
            } else {
                CONFIDENCE_SCALE
            },
            final(self).cache() == old(self).cache(),
            final(self).cached_tokens() == old(self).cached_tokens(),
    {
        self.min_confidence = if confidence <= CONFIDENCE_SCALE {
            confidence
        } else {
            CONFIDENCE_SCALE
        };
    }

    /// The least confidence at which a cached correction is applied.
    pub fn min_confidence(&self) -> (confidence: u32)
        ensures
            confidence == self.threshold(),
    {
        self.min_confidence
    }

    /// Puts a correction for `original` into the cache, in place of the one
    /// that the cache may hold for it.
    pub fn add_to_cache(&mut self, original: &str, corrected: &str, confidence: u32)
        ensures
            final(self).cache() == old(self).cache().insert(
                lowercased(original@),
                CachedView { corrected: corrected@, confidence: confidence as nat },
            ),
            final(self).cached_tokens() == listed_with(
                old(self).cache(),
                old(self).cached_tokens(),
                lowercased(original@),
            ),
            final(self).threshold() == old(self).threshold(),
    {
        self.corrections.insert(original.to_lowercase(), corrected.to_owned(), confidence);
    }

    /// Whether the cache holds a correction for `word`, whatever its
    /// confidence.
    pub fn has_correction(&self, word: &str) -> (held: bool)
        ensures
            held == self.cache().contains_key(lowercased(word@)),
    {
        let key = word.to_lowercase();
        self.corrections.contains(key.as_str())
    }

    /// The cached replacement for `word`, as it is stored, if its
    /// confidence reaches the threshold.
    pub fn get_correction(&self, word: &str) -> (corrected: Option<String>)
        ensures
            corrected is Some <==> is_applied(self.cache(), self.threshold(), word@),
            corrected is Some ==> corrected->0@ == self.cache()[lowercased(word@)].corrected,
    {
        let key = word.to_lowercase();
        match self.corrections.lookup(key.as_str(), self.min_confidence) {
            Some(c) => Some(c.corrected.clone()),
            None => None,
        }
    }

    /// Every cached correction: the lowercase token, its replacement and
    /// the confidence, in the order in which the tokens were first cached.
    /// None is left out for a low confidence.
    pub fn get_all_corrections(&self) -> (all: Vec<(String, String, u32)>)
        ensures
            all.len() == self.cached_tokens().len(),
            lists_keys(self.cache(), self.cached_tokens()),
            forall|i: int|
                0 <= i < all.len() ==> {
                    &&& (#[trigger] all[i]).0@ == self.cached_tokens()[i]
                    &&& all[i].1@ == self.cache()[all[i].0@].corrected
                    &&& all[i].2 == self.cache()[all[i].0@].confidence
                },
    {
        self.corrections.entries()
    }

    /// Empties the cache.
    pub fn clear_cache(&mut self)
        ensures
            final(self).cache() == Map::<Seq<char>, CachedView>::empty(),
            final(self).cached_tokens() == Seq::<Seq<char>>::empty(),
            final(self).threshold() == old(self).threshold(),
    {
        self.corrections.clear();
    }

    /// The number of cached corrections.
    pub fn cache_size(&self) -> (n: usize)
        ensures
            n == self.cache().len(),
            n == self.cached_tokens().len(),
            lists_keys(self.cache(), self.cached_tokens()),
    {
        self.corrections.len()
    }

    /// Removes the correction for `original` from the cache, if there is one.
    pub fn remove_from_cache(&mut self, original: &str)
        ensures
            final(self).cache() == old(self).cache().remove(lowercased(original@)),
            final(self).cached_tokens() == without(
                old(self).cached_tokens(),
                lowercased(original@),
            ),
            final(self).threshold() == old(self).threshold(),
    {
        let key = original.to_lowercase();
        self.corrections.remove(key.as_str());
    }

    /// Rewrites `text` with the cached corrections whose confidence reaches
    /// the threshold, and reports each correction that it made.
    ///
    /// With an empty cache, or a text without tokens, the text comes back as
    /// it is. Otherwise the tokens come back joined by single spaces,
    /// whether or not any of them was replaced.
    pub fn apply_corrections(&self, text: &str) -> (result: (String, Vec<AppliedCorrection>))
        ensures
            result.0@ == corrected_text(self.cache(), self.threshold(), text@),
            result.1.deep_view() == corrections_in(self.cache(), self.threshold(), text@),
            is_empty_cache(self.cache()) ==> result.0@ == text@ && result.1@.len() == 0,
    {
        let ghost cache = self.cache();
        let ghost min = self.threshold();
        if self.corrections.is_empty() {
            let none: Vec<AppliedCorrection> = Vec::new();
            assert(none.deep_view() =~= Seq::<AppliedView>::empty());
            return (text.to_owned(), none);
        }
        let words = tokenize(text);
        if words.len() == 0 {
            let none: Vec<AppliedCorrection> = Vec::new();
            assert(none.deep_view() =~= Seq::<AppliedView>::empty());
            return (text.to_owned(), none);
        }
        let ghost all = words.deep_view();
        let mut made: Vec<AppliedCorrection> = Vec::new();
        let mut output: Vec<String> = Vec::new();
        assert(output.deep_view() =~= replaced(cache, min, all.take(0)));
        assert(made.deep_view() =~= applied(cache, min, all.take(0)));
        for i in 0..words.len()
            invariant
                cache == self.cache(),
                min == self.threshold(),
                all == words.deep_view(),
                output.deep_view() == replaced(cache, min, all.take(i as int)),
                made.deep_view() == applied(cache, min, all.take(i as int)),
        {
            let word = &words[i];
            let key = word.as_str().to_lowercase();
            let ghost upto = all.take(i + 1);
            let ghost output_before = output.deep_view();
            let ghost made_before = made.deep_view();
            assert(upto.drop_last() =~= all.take(i as int));
            assert(upto.last() == word@);
            match self.corrections.lookup(key.as_str(), self.min_confidence) {
                Some(c) => {
                    let corrected = match_case(c.corrected.as_str(), word.as_str());
                    assert(corrected@ == replacement(cache, min, word@));
                    let entry = AppliedCorrection {
                        original: word.clone(),
                        corrected: corrected.clone(),
                        confidence: c.confidence,
                        position: i,
                    };
                    made.push(entry);
                    output.push(corrected);
                    assert(made.deep_view() =~= made_before.push(entry@));
                },
                None => {
                    output.push(word.clone());
                },
            }
            assert(output.deep_view() =~= output_before.push(replacement(cache, min, word@)));
            assert(replaced(cache, min, upto) =~= replaced(cache, min, all.take(i as int)).push(
                replacement(cache, min, word@),
            ));
        }
        assert(all.take(words.len() as int) =~= all);
        (join_words(&output), made)
    }

    /// Begins to learn from an edit: finds the corrections that the edit
    /// shows. Nothing is stored or cached yet.
    pub fn learn_from_edit(&self, original: &str, edited: &str) -> (session: LearnSession)
        ensures
            session.found() == detected(original@, edited@),
            session.stored() == 0,
            session.failure() is None,
    {
        LearnSession { found: detect_corrections(original, edited), stored: 0, failure: None }
    }

    /// Takes note of how the attempt went to store the record that
    /// [`LearnSession::next_save`] gave.
    ///
    /// After a success, `outcome` holds the confidence that the store now
    /// has for the correction. The correction enters the cache if that
    /// confidence reaches the threshold, and learning moves on to the next
    /// correction. After a failure learning has ended, and the cache stays
    /// as it is. Where no record waited to be stored, nothing changes.
    pub fn save_completed(&mut self, session: &mut LearnSession, outcome: Result<u32, StorageError>)
        ensures
            final(session).found() == old(session).found(),
            final(session).stored() <= final(session).found().len(),
            final(self).threshold() == old(self).threshold(),
            !old(session).is_pending() ==> {
                &&& final(session).stored() == old(session).stored()
                &&& final(session).failure() == old(session).failure()
                &&& final(self).cache() == old(self).cache()
                &&& final(self).cached_tokens() == old(self).cached_tokens()
            },
            old(session).is_pending() ==> match outcome {
                Ok(confidence) => {
                    &&& final(session).stored() == old(session).stored() + 1
                    &&& final(session).failure() is None
                    &&& final(self).cache() == promoted(
                        old(self).cache(),
                        old(self).threshold(),
                        old(session).found()[old(session).stored() as int],
                        confidence as nat,
                    )
                    &&& final(self).cached_tokens() == promoted_order(
                        old(self).cache(),
                        old(self).cached_tokens(),
                        old(self).threshold(),
                        old(session).found()[old(session).stored() as int],
                        confidence as nat,
                    )
                },
                Err(e) => {
                    &&& final(session).stored() == old(session).stored()
                    &&& final(session).failure() == Some(e@)
                    &&& final(self).cache() == old(self).cache()
                    &&& final(self).cached_tokens() == old(self).cached_tokens()
                },
            },
    {
        proof {
            use_type_invariant(&*session);
        }
        if session.failure.is_some() || session.stored >= session.found.len() {
            return;
        }
        match outcome {
            Ok(confidence) => {
                if confidence >= self.min_confidence {
                    let learned = &session.found[session.stored];
                    self.corrections.insert(
                        learned.original.as_str().to_lowercase(),
                        learned.corrected.clone(),
                        confidence,
                    );
                }
                session.stored = session.stored + 1;
            },
            Err(e) => {
                session.failure = Some(e);
            },
        }
    }

    /// Fills the cache with the given records, in place of what it holds.
    fn load(&mut self, records: &Vec<Correction>)
        ensures
            final(self).cache() == loaded_cache(records.deep_view()),
            final(self).cached_tokens() == loaded_order(records.deep_view()),
            final(self).threshold() == old(self).threshold(),
    {
        self.corrections.clear();
        let ghost all = records.deep_view();
        assert(self.cache() =~= loaded_cache(all.take(0)));
        assert(self.cached_tokens() =~= loaded_order(all.take(0)));
        for i in 0..records.len()
            invariant
                all == records.deep_view(),
                self.threshold() == old(self).threshold(),
                self.cache() == loaded_cache(all.take(i as int)),
                self.cached_tokens() == loaded_order(all.take(i as int)),
        {
            let record = &records[i];
            proof {
                let upto = all.take(i + 1);
                assert(upto.drop_last() =~= all.take(i as int));
                assert(upto.last() == record@);
            }
            self.corrections.insert(
                record.original.as_str().to_lowercase(),
                record.corrected.clone(),
                record.confidence,
            );
        }
        assert(all.take(records.len() as int) =~= all);
    }

    /// An engine with the default threshold, whose cache holds what was
    /// read from the store. `loaded` is what reading the corrections of at
    /// least [`MIN_AUTO_APPLY_CONFIDENCE`] gave. Where reading failed,
    /// `on_failure` decides between an engine with an empty cache and the
    /// failure.
    pub fn from_storage(
        loaded: Result<Vec<Correction>, StorageError>,
        on_failure: LoadFailure,
    ) -> (made: Result<Self, StorageError>)
        ensures
            match (loaded, made) {
                (Ok(records), Ok(engine)) => {
                    &&& engine.cache() == loaded_cache(records.deep_view())
                    &&& engine.cached_tokens() == loaded_order(records.deep_view())
                    &&& engine.threshold() == MIN_AUTO_APPLY_CONFIDENCE
                },
                (Err(_), Ok(engine)) => {
                    &&& on_failure == LoadFailure::StartEmpty
                    &&& engine.cache() == Map::<Seq<char>, CachedView>::empty()
                    &&& engine.cached_tokens() == Seq::<Seq<char>>::empty()
                    &&& engine.threshold() == MIN_AUTO_APPLY_CONFIDENCE
                },
                (Err(e), Err(f)) => on_failure == LoadFailure::Propagate && f@ == e@,
                (Ok(_), Err(_)) => false,
            },
    {
        let mut engine = LearningEngine::new();
        match loaded {
            Ok(records) => {
                engine.load(&records);
                Ok(engine)
            },
            Err(e) => match on_failure {
                LoadFailure::StartEmpty => Ok(engine),
                LoadFailure::Propagate => Err(e),
            },
        }
    }

    /// Replaces the whole cache by what was read from the store. `loaded`
    /// is what reading the corrections of at least the threshold gave.
    /// Where reading failed, the cache stays as it is and the failure comes
    /// back.
    pub fn reload_from_storage(&mut self, loaded: Result<Vec<Correction>, StorageError>) -> (done:
        Result<(), StorageError>)
        ensures
            final(self).threshold() == old(self).threshold(),
            match loaded {
                Ok(records) => {
                    &&& done is Ok
                    &&& final(self).cache() == loaded_cache(records.deep_view())
                    &&& final(self).cached_tokens() == loaded_order(records.deep_view())
                },
                Err(e) => {
                    &&& done is Err
                    &&& done->Err_0@ == e@
                    &&& final(self).cache() == old(self).cache()
                    &&& final(self).cached_tokens() == old(self).cached_tokens()
                },
            },
    {
        match loaded {
            Ok(records) => {
                self.load(&records);
                Ok(())
            },
            Err(e) => Err(e),
        }
    }
}

} // verus!
