use moderation_service::models::{
    BadWordCreate, BadWordRow, CommentRequest, ModerationAction, RegexRuleCreate, SettingInsert,
    SettingRow,
};
use moderation_service::regexes::pattern_is_valid;
use moderation_service::validate::{
    badword_rows_to_pairs, setting_rows_to_pairs, validate_bad_word, validate_comment,
    validate_regex_rule, validate_setting,
};

#[test]
fn action_labels_are_fixed_uppercase_names() {
    assert_eq!(ModerationAction::Approved.label(), "APPROVED");
    assert_eq!(ModerationAction::Rejected.label(), "REJECTED");
    assert_eq!(ModerationAction::NeedsReview.label(), "NEEDS_REVIEW");
}

#[test]
fn comment_length_bounds() {
    let ok = CommentRequest { content: "x".to_string() };
    assert!(validate_comment(&ok));
    let empty = CommentRequest { content: String::new() };
    assert!(!validate_comment(&empty));
    let long = CommentRequest { content: "y".repeat(5001) };
    assert!(!validate_comment(&long));
    let max = CommentRequest { content: "y".repeat(5000) };
    assert!(validate_comment(&max));
}

#[test]
fn bad_word_length_bounds() {
    let ok = BadWordCreate { word: "ab".to_string(), action: ModerationAction::Rejected };
    assert!(validate_bad_word(&ok));
    let short = BadWordCreate { word: "a".to_string(), action: ModerationAction::Rejected };
    assert!(!validate_bad_word(&short));
    let long = BadWordCreate { word: "z".repeat(65), action: ModerationAction::Rejected };
    assert!(!validate_bad_word(&long));
}

#[test]
fn regex_rule_bounds() {
    let ok = RegexRuleCreate {
        pattern: "a+".to_string(),
        description: Some("letters".to_string()),
        action: ModerationAction::NeedsReview,
    };
    assert!(validate_regex_rule(&ok));
    let empty_pattern = RegexRuleCreate {
        pattern: String::new(),
        description: None,
        action: ModerationAction::NeedsReview,
    };
    assert!(!validate_regex_rule(&empty_pattern));
    let long_description = RegexRuleCreate {
        pattern: "a+".to_string(),
        description: Some("d".repeat(257)),
        action: ModerationAction::NeedsReview,
    };
    assert!(!validate_regex_rule(&long_description));
}

#[test]
fn setting_key_and_value_bounds() {
    let ok = SettingInsert { key: "max_items_2".to_string(), value: "10".to_string() };
    assert!(validate_setting(&ok));
    let bad_char = SettingInsert { key: "Max".to_string(), value: "10".to_string() };
    assert!(!validate_setting(&bad_char));
    let short_key = SettingInsert { key: "m".to_string(), value: "10".to_string() };
    assert!(!validate_setting(&short_key));
    let empty_value = SettingInsert { key: "mode".to_string(), value: String::new() };
    assert!(!validate_setting(&empty_value));
}

#[test]
fn pattern_validity_matches_regex_compiler() {
    assert!(pattern_is_valid("\\bfree money\\b"));
    assert!(pattern_is_valid("a+b*c?"));
    assert!(!pattern_is_valid("(unclosed"));
    assert!(!pattern_is_valid("a{2,1}"));
}

#[test]
fn badword_rows_map_to_word_label_pairs() {
    let rows = vec![
        BadWordRow { id: 1, word: "Spam".to_string(), moderation_action: ModerationAction::Rejected },
        BadWordRow { id: 2, word: "junk".to_string(), moderation_action: ModerationAction::NeedsReview },
    ];
    let pairs = badword_rows_to_pairs(&rows);
    assert_eq!(
        pairs,
        vec![
            ("Spam".to_string(), "REJECTED".to_string()),
            ("junk".to_string(), "NEEDS_REVIEW".to_string()),
        ]
    );
}

#[test]
fn setting_rows_map_to_key_value_pairs() {
    let rows = vec![SettingRow { key: "mode".to_string(), value: "strict".to_string() }];
    let pairs = setting_rows_to_pairs(&rows);
    assert_eq!(pairs, vec![("mode".to_string(), "strict".to_string())]);
}
