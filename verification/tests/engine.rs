use moderation_service::cache::{moderate_comment, ModerationCache};
use moderation_service::errors::Error;
use moderation_service::models::{CommentRequest, ModerationAction, RegexRuleRow};

fn decide(cache: &ModerationCache, text: &str) -> (String, Option<String>) {
    let req = CommentRequest { content: text.to_string() };
    let resp = moderate_comment(cache, &req);
    (resp.status, resp.reason)
}

fn regex_row(id: i32, pattern: &str, description: Option<&str>, action: ModerationAction) -> RegexRuleRow {
    RegexRuleRow {
        id,
        pattern: pattern.to_string(),
        description: description.map(|d| d.to_string()),
        moderation_action: action,
    }
}

#[test]
fn default_approved_on_empty_engine() {
    let cache = ModerationCache::new();
    let (status, reason) = decide(&cache, "anything at all");
    assert_eq!(status, "APPROVED");
    assert!(reason.is_none());
}

#[test]
fn p1_literal_priority_over_regex() {
    let mut cache = ModerationCache::new();
    cache
        .load_bad_words(vec![("spam".to_string(), "REJECTED".to_string())])
        .unwrap();
    cache
        .load_regex_rules(vec![regex_row(
            1,
            "free money",
            Some("money rule"),
            ModerationAction::NeedsReview,
        )])
        .unwrap();
    let (status, reason) = decide(&cache, "this is spam and free money");
    assert_eq!(status, "REJECTED");
    assert_eq!(reason.as_deref(), Some("literal match: spam"));
}

#[test]
fn p2_tiebreak_literal_first_inserted_wins() {
    let mut cache = ModerationCache::new();
    cache
        .load_bad_words(vec![
            ("abc".to_string(), "REJECTED".to_string()),
            ("ab".to_string(), "NEEDS_REVIEW".to_string()),
        ])
        .unwrap();
    // Both words start at position 1; the earlier-inserted one wins.
    let (status, reason) = decide(&cache, "xabcx");
    assert_eq!(status, "REJECTED");
    assert_eq!(reason.as_deref(), Some("literal match: abc"));
}

#[test]
fn earliest_starting_literal_wins() {
    let mut cache = ModerationCache::new();
    cache
        .load_bad_words(vec![
            ("late".to_string(), "REJECTED".to_string()),
            ("soon".to_string(), "NEEDS_REVIEW".to_string()),
        ])
        .unwrap();
    // "soon" starts earlier in the text than "late", so it wins even
    // though "late" was inserted first.
    let (status, reason) = decide(&cache, "soon or late");
    assert_eq!(status, "NEEDS_REVIEW");
    assert_eq!(reason.as_deref(), Some("literal match: soon"));
}

#[test]
fn p3_tiebreak_regex_lowest_id_wins() {
    let mut cache = ModerationCache::new();
    cache
        .load_regex_rules(vec![
            regex_row(3, "wor.d?", Some("first rule"), ModerationAction::Rejected),
            regex_row(8, "worl.", Some("second rule"), ModerationAction::NeedsReview),
        ])
        .unwrap();
    let (status, reason) = decide(&cache, "hello world");
    assert_eq!(status, "REJECTED");
    assert_eq!(reason.as_deref(), Some("first rule"));
}

#[test]
fn p4_absence_after_empty_literal_reload() {
    let mut cache = ModerationCache::new();
    cache
        .load_bad_words(vec![("spam".to_string(), "REJECTED".to_string())])
        .unwrap();
    let (status, _) = decide(&cache, "spam here");
    assert_eq!(status, "REJECTED");
    cache.load_bad_words(vec![]).unwrap();
    let (status, reason) = decide(&cache, "spam here");
    assert_eq!(status, "APPROVED");
    assert!(reason.is_none());
}

#[test]
fn p6_idempotent_reload_same_rows() {
    let rows = vec![
        ("Bad".to_string(), "REJECTED".to_string()),
        ("worse".to_string(), "NEEDS_REVIEW".to_string()),
    ];
    let texts = ["this is bad", "even Worse", "clean text", "BAD and worse"];
    let mut cache = ModerationCache::new();
    cache.load_bad_words(rows.clone()).unwrap();
    let first: Vec<_> = texts.iter().map(|t| decide(&cache, t)).collect();
    cache.load_bad_words(rows).unwrap();
    let second: Vec<_> = texts.iter().map(|t| decide(&cache, t)).collect();
    assert_eq!(first, second);
}

#[test]
fn p7_case_normalization_both_sides() {
    let mut cache = ModerationCache::new();
    cache
        .load_bad_words(vec![("BaD".to_string(), "REJECTED".to_string())])
        .unwrap();
    let (status, reason) = decide(&cache, "BAD");
    assert_eq!(status, "REJECTED");
    // The stored word was normalized at load time.
    assert_eq!(reason.as_deref(), Some("literal match: bad"));
    let (status, _) = decide(&cache, "bad");
    assert_eq!(status, "REJECTED");
}

#[test]
fn p8_end_to_end_example() {
    let mut cache = ModerationCache::new();
    cache
        .load_bad_words(vec![("spam".to_string(), "REJECTED".to_string())])
        .unwrap();
    cache
        .load_regex_rules(vec![regex_row(
            5,
            "\\bfree money\\b",
            Some("solicitation"),
            ModerationAction::NeedsReview,
        )])
        .unwrap();

    let (status, reason) = decide(&cache, "this is spam and free money");
    assert_eq!(status, "REJECTED");
    assert_eq!(reason.as_deref(), Some("literal match: spam"));

    let (status, reason) = decide(&cache, "free money only");
    assert_eq!(status, "NEEDS_REVIEW");
    assert_eq!(reason.as_deref(), Some("solicitation"));

    let (status, reason) = decide(&cache, "hello world");
    assert_eq!(status, "APPROVED");
    assert!(reason.is_none());
}

#[test]
fn p5_each_decision_consistent_with_one_generation() {
    let mut cache = ModerationCache::new();
    cache
        .load_bad_words(vec![("alpha".to_string(), "REJECTED".to_string())])
        .unwrap();
    let old_gen = decide(&cache, "alpha beta");
    cache
        .load_bad_words(vec![("beta".to_string(), "NEEDS_REVIEW".to_string())])
        .unwrap();
    let new_gen = decide(&cache, "alpha beta");
    // Each decision pairs the matched word with the action of its own
    // generation, never a mix.
    assert_eq!(old_gen, ("REJECTED".to_string(), Some("literal match: alpha".to_string())));
    assert_eq!(new_gen, ("NEEDS_REVIEW".to_string(), Some("literal match: beta".to_string())));
}

#[test]
fn invalid_regex_fails_reload_and_keeps_previous_bundle() {
    let mut cache = ModerationCache::new();
    cache
        .load_regex_rules(vec![regex_row(
            1,
            "keep.*me",
            Some("old rule"),
            ModerationAction::Rejected,
        )])
        .unwrap();
    let err = cache
        .load_regex_rules(vec![regex_row(2, "(unclosed", None, ModerationAction::Rejected)])
        .unwrap_err();
    assert!(matches!(err, Error::Regex(_)));
    // The previously published bundle stays authoritative.
    let (status, reason) = decide(&cache, "keep watching me");
    assert_eq!(status, "REJECTED");
    assert_eq!(reason.as_deref(), Some("old rule"));
}

#[test]
fn regex_description_defaults_to_placeholder() {
    let mut cache = ModerationCache::new();
    cache
        .load_regex_rules(vec![regex_row(7, "x+", None, ModerationAction::NeedsReview)])
        .unwrap();
    let (status, reason) = decide(&cache, "xxx");
    assert_eq!(status, "NEEDS_REVIEW");
    assert_eq!(reason.as_deref(), Some("regex rule"));
}

#[test]
fn empty_regex_reload_unpublishes_bundle() {
    let mut cache = ModerationCache::new();
    cache
        .load_regex_rules(vec![regex_row(1, "x+", None, ModerationAction::Rejected)])
        .unwrap();
    cache.load_regex_rules(vec![]).unwrap();
    let (status, _) = decide(&cache, "xxx");
    assert_eq!(status, "APPROVED");
}

#[test]
fn list_badwords_returns_normalized_pairs() {
    let mut cache = ModerationCache::new();
    cache
        .load_bad_words(vec![
            ("AlPhA".to_string(), "REJECTED".to_string()),
            ("beta".to_string(), "NEEDS_REVIEW".to_string()),
        ])
        .unwrap();
    let mut listed = cache.list_badwords();
    listed.sort();
    assert_eq!(
        listed,
        vec![
            ("alpha".to_string(), "REJECTED".to_string()),
            ("beta".to_string(), "NEEDS_REVIEW".to_string()),
        ]
    );
}

#[test]
fn list_regex_returns_raw_rows() {
    let mut cache = ModerationCache::new();
    cache
        .load_regex_rules(vec![
            regex_row(2, "a+", Some("letters"), ModerationAction::Rejected),
            regex_row(4, "b+", None, ModerationAction::NeedsReview),
        ])
        .unwrap();
    let mut listed = cache.list_regex();
    listed.sort();
    assert_eq!(
        listed,
        vec![
            (2, ("a+".to_string(), "letters".to_string(), "REJECTED".to_string())),
            (4, ("b+".to_string(), "regex rule".to_string(), "NEEDS_REVIEW".to_string())),
        ]
    );
}

#[test]
fn list_settings_after_reload() {
    let mut cache = ModerationCache::new();
    cache.load_settings(vec![
        ("threshold".to_string(), "3".to_string()),
        ("mode".to_string(), "strict".to_string()),
    ]);
    cache.load_settings(vec![("mode".to_string(), "lax".to_string())]);
    let mut listed = cache.list_settings();
    listed.sort();
    assert_eq!(listed, vec![("mode".to_string(), "lax".to_string())]);
}

#[test]
fn settings_do_not_affect_decisions() {
    let mut cache = ModerationCache::new();
    cache
        .load_bad_words(vec![("spam".to_string(), "REJECTED".to_string())])
        .unwrap();
    cache.load_settings(vec![("spam".to_string(), "APPROVED".to_string())]);
    let (status, _) = decide(&cache, "spam");
    assert_eq!(status, "REJECTED");
}
