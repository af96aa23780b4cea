use flow_core::align::{align_words, choose_step, AlignStep};
use flow_core::cache::CorrectionCache;
use flow_core::case::{case_pattern, choose_pattern, match_case, CasePattern};
use flow_core::correction::{
    confidence_for, Correction, CorrectionSource, CONFIDENCE_SCALE, MIN_AUTO_APPLY_CONFIDENCE,
};
use flow_core::error::StorageError;
use flow_core::detect::{accepts, detect_corrections, LearnedCorrection};
use flow_core::learning::{LearningEngine, LoadFailure};
use flow_core::similarity::{similarity, ALIGNMENT_THRESHOLD, CORRECTION_THRESHOLD, SCORE_ONE};

/// A store of corrections held in memory: it counts the observations of each
/// pair and derives the confidence from the count.
struct MemoryStore {
    records: Vec<Correction>,
    fail_on: Option<usize>,
    saves: usize,
}

impl MemoryStore {
    fn new() -> Self {
        MemoryStore { records: Vec::new(), fail_on: None, saves: 0 }
    }

    fn save_correction(&mut self, observed: &Correction) -> Result<u32, StorageError> {
        if self.fail_on == Some(self.saves) {
            return Err(StorageError::new(String::from("disk full")));
        }
        self.saves += 1;
        for record in self.records.iter_mut() {
            if record.same_pair(observed) {
                record.record_occurrence();
                return Ok(record.confidence);
            }
        }
        self.records.push(observed.clone());
        Ok(observed.confidence)
    }

    fn get_corrections(&self, min_confidence: u32) -> Vec<Correction> {
        self.records.iter().filter(|r| r.confidence >= min_confidence).cloned().collect()
    }
}

fn learn(
    engine: &mut LearningEngine,
    store: &mut MemoryStore,
    original: &str,
    edited: &str,
) -> Result<Vec<LearnedCorrection>, StorageError> {
    let mut session = engine.learn_from_edit(original, edited);
    while let Some(record) = session.next_save() {
        let outcome = store.save_correction(&record);
        engine.save_completed(&mut session, outcome);
    }
    session.finish()
}

#[test]
fn test_apply_corrections() {
    let mut engine = LearningEngine::new();

    engine.add_to_cache("teh", "the", 950);
    engine.add_to_cache("recieve", "receive", 900);

    let (result, applied) = engine.apply_corrections("I will recieve teh package");

    assert_eq!(result, "I will receive the package");
    assert_eq!(applied.len(), 2);
}

#[test]
fn test_case_matching() {
    assert_eq!(match_case("the", "TEH"), "THE");
    assert_eq!(match_case("the", "Teh"), "The");
    assert_eq!(match_case("the", "teh"), "the");
}

#[test]
fn test_word_alignment() {
    let original = vec!["I", "recieve", "teh", "mail"];
    let edited = vec!["I", "receive", "the", "mail"];

    let pairs = align_words(&original, &edited);

    assert_eq!(pairs.len(), 4);
    assert_eq!(pairs[1], ("recieve", "receive"));
    assert_eq!(pairs[2], ("teh", "the"));
}

#[test]
fn test_similarity_threshold() {
    // "hello" and "world" are very different
    let sim = similarity("hello", "world");
    assert!(sim < CORRECTION_THRESHOLD);
    assert!(f64::from_bits(sim) < 0.7);

    // "recieve" and "receive" are similar
    let sim = similarity("recieve", "receive");
    assert!(sim >= CORRECTION_THRESHOLD);
    assert!(f64::from_bits(sim) >= 0.7);
}

#[test]
fn test_confidence_below_threshold() {
    let mut engine = LearningEngine::new();
    engine.set_min_confidence(900);

    // add a low-confidence correction
    engine.add_to_cache("foo", "bar", 500);

    let (result, applied) = engine.apply_corrections("test foo here");

    // should not be applied
    assert_eq!(result, "test foo here");
    assert!(applied.is_empty());
}

#[test]
fn thresholds_are_the_bit_patterns_of_their_scores() {
    assert_eq!(f64::from_bits(SCORE_ONE), 1.0);
    assert_eq!(f64::from_bits(ALIGNMENT_THRESHOLD), 0.5);
    assert_eq!(f64::from_bits(CORRECTION_THRESHOLD), 0.7);
}

#[test]
fn similarity_is_the_jaro_winkler_score() {
    for (a, b) in [("martha", "marhta"), ("teh", "the"), ("", ""), ("", "x"), ("a", "b")] {
        assert_eq!(f64::from_bits(similarity(a, b)), strsim::jaro_winkler(a, b));
    }
    assert_eq!(f64::from_bits(similarity("jaro", "jaro")), 1.0);
    assert_eq!(f64::from_bits(similarity("a", "b")), 0.0);
    assert!((f64::from_bits(similarity("cheeseburger", "cheese fries")) - 0.866).abs() < 0.001);
}

#[test]
fn step_pairs_equal_or_similar_tokens() {
    assert_eq!(choose_step(true, 0, Some(SCORE_ONE), None), AlignStep::Pair);
    assert_eq!(choose_step(false, ALIGNMENT_THRESHOLD, Some(SCORE_ONE), None), AlignStep::Pair);
    assert_eq!(choose_step(false, SCORE_ONE, None, None), AlignStep::Pair);
}

#[test]
fn step_follows_the_one_better_lookahead() {
    let low = 0.2f64.to_bits();
    let mid = 0.3f64.to_bits();
    assert_eq!(choose_step(false, low, Some(mid), None), AlignStep::SkipOriginal);
    assert_eq!(choose_step(false, low, Some(mid), Some(low)), AlignStep::SkipOriginal);
    assert_eq!(choose_step(false, low, None, Some(mid)), AlignStep::SkipEdited);
    assert_eq!(choose_step(false, low, Some(0), Some(mid)), AlignStep::SkipEdited);
}

#[test]
fn step_pairs_by_force_when_lookaheads_do_not_decide() {
    let low = 0.2f64.to_bits();
    let mid = 0.3f64.to_bits();
    assert_eq!(choose_step(false, low, None, None), AlignStep::Pair);
    assert_eq!(choose_step(false, low, Some(mid), Some(mid)), AlignStep::Pair);
    assert_eq!(choose_step(false, low, Some(low), Some(low)), AlignStep::Pair);
    assert_eq!(choose_step(false, low, Some(0), Some(0)), AlignStep::Pair);
}

#[test]
fn alignment_of_an_empty_side_is_empty() {
    let none: Vec<&str> = Vec::new();
    let some = vec!["a", "b"];
    assert!(align_words(&none, &some).is_empty());
    assert!(align_words(&some, &none).is_empty());
    assert!(align_words(&none, &none).is_empty());
}

#[test]
fn alignment_pairs_tokens_that_differ_in_case_only() {
    let original = vec!["Hello", "WORLD"];
    let edited = vec!["hello", "world"];
    assert_eq!(align_words(&original, &edited), vec![("Hello", "hello"), ("WORLD", "world")]);
}

#[test]
fn alignment_skips_a_word_that_the_edit_dropped() {
    // "xyz" has no partner: "the" is found one step ahead in the original
    let original = vec!["xyz", "the", "cat"];
    let edited = vec!["the", "cat"];
    assert_eq!(align_words(&original, &edited), vec![("the", "the"), ("cat", "cat")]);
}

#[test]
fn alignment_skips_a_word_that_the_edit_added() {
    let original = vec!["the", "cat"];
    let edited = vec!["xyz", "the", "cat"];
    assert_eq!(align_words(&original, &edited), vec![("the", "the"), ("cat", "cat")]);
}

#[test]
fn alignment_pairs_unlike_tokens_by_force() {
    let original = vec!["abc"];
    let edited = vec!["xyz"];
    assert_eq!(align_words(&original, &edited), vec![("abc", "xyz")]);
    let original = vec!["abc", "stop"];
    let edited = vec!["xyz", "stop"];
    assert_eq!(align_words(&original, &edited), vec![("abc", "xyz"), ("stop", "stop")]);
}

#[test]
fn alignment_follows_a_lookahead_that_is_only_a_little_better() {
    // "abc" scores nothing against "xyz" and a little against "same": the
    // edited cursor moves on alone, and "abc" is then paired with "same"
    let original = vec!["abc", "same"];
    let edited = vec!["xyz", "same"];
    assert_eq!(align_words(&original, &edited), vec![("abc", "same")]);
}

#[test]
fn alignment_is_never_longer_than_the_shorter_side() {
    let original = vec!["one", "two", "three", "four", "five"];
    let edited = vec!["won", "too"];
    assert!(align_words(&original, &edited).len() <= 2);
    assert!(align_words(&edited, &original).len() <= 2);
}

#[test]
fn case_patterns() {
    assert_eq!(case_pattern("Teh"), CasePattern::Title);
    assert_eq!(case_pattern("T"), CasePattern::Title);
    assert_eq!(case_pattern("T-shirt"), CasePattern::Title);
    assert_eq!(case_pattern("TEH"), CasePattern::AllCaps);
    assert_eq!(case_pattern("U.S.A"), CasePattern::AllCaps);
    assert_eq!(case_pattern("teh"), CasePattern::Other);
    assert_eq!(case_pattern("tEH"), CasePattern::Other);
    assert_eq!(case_pattern("TeH"), CasePattern::Other);
    assert_eq!(case_pattern("4K"), CasePattern::AllCaps);
}

#[test]
fn match_case_leaves_the_replacement_for_empty_or_irregular_tokens() {
    assert_eq!(match_case("the", ""), "the");
    assert_eq!(match_case("", "TEH"), "");
    assert_eq!(match_case("iPhone", "tEH"), "iPhone");
    assert_eq!(match_case("McDonald", "mcdonald"), "McDonald");
}

#[test]
fn match_case_title_lowers_the_rest() {
    assert_eq!(match_case("iPhone", "Iphone"), "Iphone");
    assert_eq!(match_case("hELLO", "Jello"), "Hello");
    assert_eq!(match_case("\u{df}a", "Xy"), "SSa");
}

#[test]
fn match_case_all_caps_uppercases_everything() {
    assert_eq!(match_case("McDonald", "MCDONALD"), "MCDONALD");
    assert_eq!(match_case("stra\u{df}e", "STRASE"), "STRASSE");
}

#[test]
fn confidence_grows_and_stays_below_one() {
    assert_eq!(confidence_for(0), 0);
    assert_eq!(confidence_for(1), 333);
    assert_eq!(confidence_for(2), 500);
    assert_eq!(confidence_for(3), 600);
    assert_eq!(confidence_for(4), 666);
    assert_eq!(confidence_for(5), 714);
    assert_eq!(confidence_for(1998), 999);
    assert_eq!(confidence_for(u32::MAX), 999);
    let mut last = 0;
    for n in 0..5000 {
        let c = confidence_for(n);
        assert!(c >= last);
        assert!(c < CONFIDENCE_SCALE);
        last = c;
    }
}

#[test]
fn third_observation_crosses_the_default_threshold() {
    assert_eq!(MIN_AUTO_APPLY_CONFIDENCE, 550);
    assert!(confidence_for(2) < MIN_AUTO_APPLY_CONFIDENCE);
    assert!(confidence_for(3) >= MIN_AUTO_APPLY_CONFIDENCE);
}

#[test]
fn confidence_gains_diminish() {
    for n in 0..2000u32 {
        let a = confidence_for(n);
        let b = confidence_for(n + 1);
        let c = confidence_for(n + 2);
        assert!(c - b <= b - a + 1);
    }
}

#[test]
fn correction_record_counts_observations() {
    let mut record =
        Correction::new(String::from("teh"), String::from("the"), CorrectionSource::UserEdit);
    assert_eq!(record.original, "teh");
    assert_eq!(record.corrected, "the");
    assert_eq!(record.source, CorrectionSource::UserEdit);
    assert_eq!(record.occurrences, 1);
    assert_eq!(record.confidence, 333);
    record.record_occurrence();
    assert_eq!((record.occurrences, record.confidence), (2, 500));
    record.record_occurrence();
    assert_eq!((record.occurrences, record.confidence), (3, 600));
    record.occurrences = u32::MAX;
    record.record_occurrence();
    assert_eq!((record.occurrences, record.confidence), (u32::MAX, 999));
    record.occurrences = 5;
    record.update_confidence();
    assert_eq!(record.confidence, 714);
}

#[test]
fn correction_records_are_told_apart_by_their_pair() {
    let a = Correction::new(String::from("teh"), String::from("the"), CorrectionSource::UserEdit);
    let mut b = a.clone();
    b.record_occurrence();
    assert!(a.same_pair(&b));
    let c = Correction::new(String::from("teh"), String::from("ten"), CorrectionSource::UserEdit);
    assert!(!a.same_pair(&c));
    let d = Correction::new(String::from("hte"), String::from("the"), CorrectionSource::UserEdit);
    assert!(!a.same_pair(&d));
}

#[test]
fn accepts_needs_score_and_close_lengths() {
    assert!(accepts(CORRECTION_THRESHOLD, 3, 3));
    assert!(accepts(SCORE_ONE, 3, 4));
    assert!(accepts(SCORE_ONE, 4, 3));
    assert!(!accepts(CORRECTION_THRESHOLD - 1, 3, 3));
    assert!(!accepts(SCORE_ONE, 3, 5));
    assert!(!accepts(SCORE_ONE, 5, 3));
    assert!(accepts(SCORE_ONE, 0, 1));
    assert!(!accepts(SCORE_ONE, 0, usize::MAX));
}

#[test]
fn empty_cache_returns_any_text_unchanged() {
    let engine = LearningEngine::new();
    for text in ["", "   ", "teh  cat", " leading and trailing ", "tabs\tand\nlines"] {
        let (result, applied) = engine.apply_corrections(text);
        assert_eq!(result, text);
        assert!(applied.is_empty());
    }
}

#[test]
fn text_without_tokens_is_returned_unchanged() {
    let mut engine = LearningEngine::new();
    engine.add_to_cache("teh", "the", 950);
    for text in ["", "   ", "\t\n "] {
        let (result, applied) = engine.apply_corrections(text);
        assert_eq!(result, text);
        assert!(applied.is_empty());
    }
}

#[test]
fn unknown_words_pass_through() {
    let mut engine = LearningEngine::new();
    engine.add_to_cache("teh", "the", 950);
    let (result, applied) = engine.apply_corrections("A quick Brown fox saw teh DOG");
    assert_eq!(result, "A quick Brown fox saw the DOG");
    assert_eq!(applied.len(), 1);
    assert_eq!(applied[0].position, 5);
}

#[test]
fn whitespace_is_normalised_even_when_nothing_applies() {
    let mut engine = LearningEngine::new();
    engine.add_to_cache("teh", "the", 950);
    let (result, applied) = engine.apply_corrections("  one   two\t\tthree \n four  ");
    assert_eq!(result, "one two three four");
    assert!(applied.is_empty());
    let (again, _) = engine.apply_corrections(&result);
    assert_eq!(again, result);
}

#[test]
fn unicode_white_space_separates_tokens() {
    let mut engine = LearningEngine::new();
    engine.add_to_cache("teh", "the", 950);
    let text = "a\u{a0}teh\u{2003}b\u{3000}c\u{85}d\u{1680}e\u{2028}f\u{205f}g\u{200b}h";
    let expected: Vec<&str> = text.split_whitespace().collect();
    assert_eq!(expected.len(), 8);
    let (result, applied) = engine.apply_corrections(text);
    assert_eq!(result, "a the b c d e f g\u{200b}h");
    assert_eq!(applied.len(), 1);
    assert_eq!(applied[0].position, 1);
}

#[test]
fn applied_corrections_report_token_and_position() {
    let mut engine = LearningEngine::new();
    engine.add_to_cache("teh", "the", 950);
    engine.add_to_cache("recieve", "receive", 900);
    let (result, applied) = engine.apply_corrections("Teh dog will RECIEVE teh bone");
    assert_eq!(result, "The dog will RECEIVE the bone");
    assert_eq!(applied.len(), 3);
    assert_eq!(applied[0].original, "Teh");
    assert_eq!(applied[0].corrected, "The");
    assert_eq!(applied[0].confidence, 950);
    assert_eq!(applied[0].position, 0);
    assert_eq!(applied[1].original, "RECIEVE");
    assert_eq!(applied[1].corrected, "RECEIVE");
    assert_eq!(applied[1].confidence, 900);
    assert_eq!(applied[1].position, 3);
    assert_eq!(applied[2].original, "teh");
    assert_eq!(applied[2].corrected, "the");
    assert_eq!(applied[2].position, 4);
}

#[test]
fn threshold_change_takes_effect_at_once() {
    let mut engine = LearningEngine::new();
    engine.add_to_cache("foo", "bar", 500);
    assert_eq!(engine.min_confidence(), 550);
    assert_eq!(engine.apply_corrections("test foo here").0, "test foo here");
    assert_eq!(engine.get_correction("foo"), None);
    assert!(engine.has_correction("foo"));

    engine.set_min_confidence(500);
    let (result, applied) = engine.apply_corrections("test foo here");
    assert_eq!(result, "test bar here");
    assert_eq!(applied.len(), 1);
    assert_eq!(engine.get_correction("foo"), Some(String::from("bar")));

    engine.set_min_confidence(501);
    assert_eq!(engine.apply_corrections("test foo here").0, "test foo here");
    assert_eq!(engine.get_correction("FOO"), None);
}

#[test]
fn threshold_is_held_to_the_scale() {
    let mut engine = LearningEngine::new();
    engine.set_min_confidence(0);
    assert_eq!(engine.min_confidence(), 0);
    engine.set_min_confidence(1000);
    assert_eq!(engine.min_confidence(), 1000);
    engine.set_min_confidence(1001);
    assert_eq!(engine.min_confidence(), 1000);
    engine.set_min_confidence(u32::MAX);
    assert_eq!(engine.min_confidence(), 1000);
}

#[test]
fn cache_is_keyed_by_lowercase() {
    let mut engine = LearningEngine::new();
    assert_eq!(engine.cache_size(), 0);
    engine.add_to_cache("TEH", "the", 950);
    assert!(engine.has_correction("teh"));
    assert!(engine.has_correction("Teh"));
    assert!(!engine.has_correction("the"));
    assert_eq!(engine.get_correction("tEh"), Some(String::from("the")));
    assert_eq!(engine.cache_size(), 1);
    engine.add_to_cache("teh", "tea", 600);
    assert_eq!(engine.cache_size(), 1);
    assert_eq!(engine.get_correction("teh"), Some(String::from("tea")));
    assert_eq!(
        engine.get_all_corrections(),
        vec![(String::from("teh"), String::from("tea"), 600)]
    );
}

#[test]
fn cache_removal_and_clearing() {
    let mut engine = LearningEngine::new();
    engine.add_to_cache("teh", "the", 950);
    engine.add_to_cache("recieve", "receive", 900);
    engine.add_to_cache("adn", "and", 100);
    assert_eq!(engine.cache_size(), 3);
    engine.remove_from_cache("RECIEVE");
    assert_eq!(engine.cache_size(), 2);
    assert!(!engine.has_correction("recieve"));
    engine.remove_from_cache("missing");
    assert_eq!(engine.cache_size(), 2);
    assert_eq!(
        engine.get_all_corrections(),
        vec![
            (String::from("teh"), String::from("the"), 950),
            (String::from("adn"), String::from("and"), 100),
        ]
    );
    engine.clear_cache();
    assert_eq!(engine.cache_size(), 0);
    assert!(engine.get_all_corrections().is_empty());
    assert_eq!(engine.apply_corrections("teh  cat").0, "teh  cat");
}

#[test]
fn detection_finds_the_typos() {
    let found = detect_corrections("I will recieve teh pacakge", "I will receive the package");
    assert_eq!(found.len(), 2);
    assert_eq!(found[0].original, "recieve");
    assert_eq!(found[0].corrected, "receive");
    assert_eq!(found[1].original, "pacakge");
    assert_eq!(found[1].corrected, "package");
    for learned in &found {
        assert!(learned.similarity >= CORRECTION_THRESHOLD);
        assert!(f64::from_bits(learned.similarity) >= 0.7);
        assert_eq!(
            f64::from_bits(learned.similarity),
            strsim::jaro_winkler(&learned.original, &learned.corrected)
        );
        assert!(learned.original.len().abs_diff(learned.corrected.len()) <= 1);
    }
}

#[test]
fn detection_leaves_out_a_pair_below_the_threshold() {
    // "teh" and "the" share one character in place: they are aligned, not learned
    let score = f64::from_bits(similarity("teh", "the"));
    assert!(score >= 0.5 && score < 0.7);
    let found = detect_corrections("I will recieve teh package", "I will receive the package");
    assert_eq!(found.len(), 1);
    assert_eq!(found[0].original, "recieve");
    assert_eq!(found[0].corrected, "receive");
}

#[test]
fn detection_ignores_case_changes_rewrites_and_long_changes() {
    assert!(detect_corrections("hello world", "Hello World").is_empty());
    assert!(detect_corrections("hello", "world").is_empty());
    // similar enough, but two bytes longer
    assert!(f64::from_bits(similarity("recieve", "recieveds")) >= 0.7);
    assert!(detect_corrections("recieve", "recieveds").is_empty());
    assert!(detect_corrections("", "anything").is_empty());
    assert!(detect_corrections("anything", "").is_empty());
}

#[test]
fn detection_counts_length_in_bytes() {
    // one character each, but two bytes more in the edit
    assert!(f64::from_bits(similarity("nave", "na\u{4e2d}e")) >= 0.7);
    assert!(detect_corrections("nave", "na\u{4e2d}e").is_empty());
    assert_eq!(detect_corrections("naive", "na\u{ef}ve").len(), 1);
}

#[test]
fn learning_end_to_end() {
    let mut engine = LearningEngine::new();
    let mut store = MemoryStore::new();
    let original = "I will recieve teh pacakge";
    let edited = "I will receive the package";

    let learned = learn(&mut engine, &mut store, original, edited).unwrap();
    assert_eq!(learned.len(), 2);
    assert_eq!(
        (learned[0].original.as_str(), learned[0].corrected.as_str()),
        ("recieve", "receive")
    );
    assert_eq!(
        (learned[1].original.as_str(), learned[1].corrected.as_str()),
        ("pacakge", "package")
    );
    assert_eq!(engine.cache_size(), 0);
    assert_eq!(engine.apply_corrections(original).0, original);

    learn(&mut engine, &mut store, original, edited).unwrap();
    assert_eq!(engine.cache_size(), 0);

    learn(&mut engine, &mut store, original, edited).unwrap();
    assert_eq!(engine.cache_size(), 2);
    let (result, applied) = engine.apply_corrections(original);
    assert_eq!(result, "I will receive teh package");
    assert_eq!(applied.len(), 2);
    assert_eq!(applied[0].confidence, 600);
    assert_eq!((applied[0].position, applied[1].position), (2, 4));
    assert_eq!(store.records.len(), 2);
    assert_eq!(store.records[0].occurrences, 3);
}

#[test]
fn learning_from_the_package_sentence() {
    let mut engine = LearningEngine::new();
    let mut store = MemoryStore::new();
    let original = "I will recieve teh package";
    let edited = "I will receive the package";
    for _ in 0..3 {
        let learned = learn(&mut engine, &mut store, original, edited).unwrap();
        assert_eq!(learned.len(), 1);
        assert_eq!(
            (learned[0].original.as_str(), learned[0].corrected.as_str()),
            ("recieve", "receive")
        );
        assert!(f64::from_bits(learned[0].similarity) >= 0.7);
    }
    let (result, applied) = engine.apply_corrections(original);
    assert_eq!(result, "I will receive teh package");
    assert_eq!(applied.len(), 1);
    // with "teh" cached as well, both tokens are rewritten
    engine.add_to_cache("teh", "the", 600);
    let (result, applied) = engine.apply_corrections(original);
    assert_eq!(result, "I will receive the package");
    assert_eq!(applied.len(), 2);
}

#[test]
fn learning_records_go_to_the_store_in_lowercase() {
    let engine = LearningEngine::new();
    let session = engine.learn_from_edit("Recieve it", "Receive it");
    let record = session.next_save().unwrap();
    assert_eq!(record.original, "recieve");
    assert_eq!(record.corrected, "Receive");
    assert_eq!(record.source, CorrectionSource::UserEdit);
    assert_eq!(record.occurrences, 1);
    assert_eq!(record.confidence, 333);
}

#[test]
fn learning_stops_at_the_first_storage_failure() {
    let mut engine = LearningEngine::new();
    engine.set_min_confidence(0);
    let mut store = MemoryStore::new();
    store.fail_on = Some(1);
    let outcome =
        learn(&mut engine, &mut store, "I will recieve teh pacakge", "I will receive the package");
    match outcome {
        Err(e) => assert_eq!(e.message(), "disk full"),
        Ok(_) => panic!("the second save fails"),
    }
    // the first correction stays stored and cached
    assert_eq!(store.records.len(), 1);
    assert_eq!(store.records[0].original, "recieve");
    assert!(engine.has_correction("recieve"));
    assert!(!engine.has_correction("pacakge"));
}

#[test]
fn learning_session_ignores_outcomes_that_it_did_not_ask_for() {
    let mut engine = LearningEngine::new();
    engine.set_min_confidence(0);
    let mut session = engine.learn_from_edit("same text", "same text");
    assert!(session.next_save().is_none());
    engine.save_completed(&mut session, Ok(999));
    engine.save_completed(&mut session, Err(StorageError::new(String::from("late"))));
    assert_eq!(engine.cache_size(), 0);
    assert!(session.finish().unwrap().is_empty());
}

#[test]
fn learning_session_ended_early_reports_what_was_stored() {
    let mut engine = LearningEngine::new();
    let mut session = engine.learn_from_edit("recieve pacakge", "receive package");
    engine.save_completed(&mut session, Ok(100));
    let learned = session.finish().unwrap();
    assert_eq!(learned.len(), 1);
    assert_eq!(learned[0].original, "recieve");
    assert_eq!(engine.cache_size(), 0);
}

#[test]
fn engine_from_storage() {
    let mut store = MemoryStore::new();
    for (original, corrected, times) in [("teh", "the", 3), ("adn", "and", 1), ("Teh", "tea", 4)] {
        let record = Correction::new(
            String::from(original),
            String::from(corrected),
            CorrectionSource::UserEdit,
        );
        for _ in 0..times {
            store.save_correction(&record).unwrap();
        }
    }
    let loaded = store.get_corrections(MIN_AUTO_APPLY_CONFIDENCE);
    assert_eq!(loaded.len(), 2);
    let engine = LearningEngine::from_storage(Ok(loaded), LoadFailure::Propagate).unwrap();
    assert_eq!(engine.min_confidence(), 550);
    // the later record for the same lowercase token wins
    assert_eq!(
        engine.get_all_corrections(),
        vec![(String::from("teh"), String::from("tea"), 666)]
    );
}

#[test]
fn engine_from_unreadable_storage() {
    let failed = || Err(StorageError::new(String::from("corrupt")));
    let engine = LearningEngine::from_storage(failed(), LoadFailure::StartEmpty).unwrap();
    assert_eq!(engine.cache_size(), 0);
    assert_eq!(engine.min_confidence(), 550);
    match LearningEngine::from_storage(failed(), LoadFailure::Propagate) {
        Err(e) => assert_eq!(e.message(), "corrupt"),
        Ok(_) => panic!("the failure is passed on"),
    }
}

#[test]
fn reload_replaces_the_cache() {
    let mut engine = LearningEngine::new();
    engine.set_min_confidence(100);
    engine.add_to_cache("old", "new", 900);
    let mut record =
        Correction::new(String::from("TEH"), String::from("the"), CorrectionSource::UserEdit);
    record.record_occurrence();
    assert!(engine.reload_from_storage(Ok(vec![record])).is_ok());
    assert_eq!(engine.min_confidence(), 100);
    assert_eq!(
        engine.get_all_corrections(),
        vec![(String::from("teh"), String::from("the"), 500)]
    );
    match engine.reload_from_storage(Err(StorageError::new(String::from("locked")))) {
        Err(e) => assert_eq!(e.message(), "locked"),
        Ok(()) => panic!("the failure is passed on"),
    }
    assert_eq!(engine.cache_size(), 1);
    assert!(engine.reload_from_storage(Ok(Vec::new())).is_ok());
    assert_eq!(engine.cache_size(), 0);
}

#[test]
fn pattern_follows_from_the_two_findings() {
    assert_eq!(choose_pattern(true, true), CasePattern::Title);
    assert_eq!(choose_pattern(true, false), CasePattern::Title);
    assert_eq!(choose_pattern(false, true), CasePattern::AllCaps);
    assert_eq!(choose_pattern(false, false), CasePattern::Other);
}

#[test]
fn cache_holds_keys_as_given() {
    let mut cache = CorrectionCache::new();
    assert!(cache.is_empty());
    assert_eq!(cache.len(), 0);
    cache.insert(String::from("teh"), String::from("the"), 500);
    cache.insert(String::from("Teh"), String::from("The"), 700);
    assert!(!cache.is_empty());
    assert_eq!(cache.len(), 2);
    assert!(cache.contains("teh"));
    assert!(cache.contains("Teh"));
    assert!(!cache.contains("TEH"));
    assert_eq!(cache.get("teh").unwrap().corrected, "the");
    assert_eq!(cache.get("teh").unwrap().confidence, 500);
    assert!(cache.get("the").is_none());
}

#[test]
fn cache_lookup_is_gated_by_confidence() {
    let mut cache = CorrectionCache::new();
    cache.insert(String::from("teh"), String::from("the"), 500);
    assert_eq!(cache.lookup("teh", 0).unwrap().corrected, "the");
    assert_eq!(cache.lookup("teh", 500).unwrap().confidence, 500);
    assert!(cache.lookup("teh", 501).is_none());
    assert!(cache.lookup("the", 0).is_none());
}

#[test]
fn cache_keeps_the_order_of_first_entry() {
    let mut cache = CorrectionCache::new();
    cache.insert(String::from("b"), String::from("1"), 1);
    cache.insert(String::from("a"), String::from("2"), 2);
    cache.insert(String::from("c"), String::from("3"), 3);
    cache.insert(String::from("b"), String::from("4"), 4);
    let keys: Vec<String> = cache.entries().into_iter().map(|e| e.0).collect();
    assert_eq!(keys, vec!["b", "a", "c"]);
    assert_eq!(cache.entries()[0], (String::from("b"), String::from("4"), 4));
    cache.remove("a");
    cache.remove("zzz");
    let keys: Vec<String> = cache.entries().into_iter().map(|e| e.0).collect();
    assert_eq!(keys, vec!["b", "c"]);
    cache.insert(String::from("a"), String::from("5"), 5);
    let keys: Vec<String> = cache.entries().into_iter().map(|e| e.0).collect();
    assert_eq!(keys, vec!["b", "c", "a"]);
    cache.clear();
    assert!(cache.is_empty());
    assert!(cache.entries().is_empty());
}
