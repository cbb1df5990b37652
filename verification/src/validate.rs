//! Request validation: the exact character-count and character-class
//! rules that administrative requests must pass before they reach the
//! store, and the row-to-pair conversions the reload calls consume.

use vstd::prelude::*;
use vstd::string::StrSliceExecFns;

use crate::models::{
    BadWordCreate, BadWordRow, CommentRequest, RegexRuleCreate, SettingInsert, SettingRow,
};

verus! {

/// A comment must hold between 1 and 5000 characters.
pub open spec fn comment_ok(c: CommentRequest) -> bool {
    1 <= c.content@.len() <= 5000
}

/// Checks a comment's length bounds.
pub fn validate_comment(req: &CommentRequest) -> (r: bool)
    ensures
        r == comment_ok(*req),
{
    let len = req.content.as_str().unicode_len();
    1 <= len && len <= 5000
}

/// A literal-word rule must hold between 2 and 64 characters.
pub open spec fn bad_word_ok(b: BadWordCreate) -> bool {
    2 <= b.word@.len() <= 64
}

/// Checks a literal-word creation request.
pub fn validate_bad_word(body: &BadWordCreate) -> (r: bool)
    ensures
        r == bad_word_ok(*body),
{
    let len = body.word.as_str().unicode_len();
    2 <= len && len <= 64
}

/// A regex rule's pattern must hold between 1 and 512 characters, and
/// its description, when given, at most 256.
pub open spec fn regex_rule_ok(c: RegexRuleCreate) -> bool {
    &&& 1 <= c.pattern@.len() <= 512
    &&& (c.description matches Some(d) ==> d@.len() <= 256)
}

/// Checks a regex-rule creation request's length bounds; whether the
/// pattern compiles is checked separately.
pub fn validate_regex_rule(body: &RegexRuleCreate) -> (r: bool)
    ensures
        r == regex_rule_ok(*body),
{
    let plen = body.pattern.as_str().unicode_len();
    if plen < 1 || plen > 512 {
        return false;
    }
    match &body.description {
        Some(d) => d.as_str().unicode_len() <= 256,
        None => true,
    }
}

/// A setting-key character: a lowercase ASCII letter, a digit, or an
/// underscore.
pub open spec fn is_key_char(c: char) -> bool {
    ||| 'a' <= c && c <= 'z'
    ||| '0' <= c && c <= '9'
    ||| c == '_'
}

/// A setting key holds 2 to 64 characters, all key characters.
pub open spec fn setting_key_ok(k: Seq<char>) -> bool {
    &&& 2 <= k.len() <= 64
    &&& forall|i: int| 0 <= i < k.len() ==> is_key_char(#[trigger] k[i])
}

/// A setting insert: a well-formed key and a value of 1 to 128
/// characters.
pub open spec fn setting_ok(s: SettingInsert) -> bool {
    &&& setting_key_ok(s.key@)
    &&& 1 <= s.value@.len() <= 128
}

/// Checks a setting insert request.
pub fn validate_setting(body: &SettingInsert) -> (r: bool)
    ensures
        r == setting_ok(*body),
{
    let klen = body.key.as_str().unicode_len();
    if klen < 2 || klen > 64 {
        return false;
    }
    let mut i: usize = 0;
    while i < klen
        invariant
            klen == body.key@.len(),
            i <= klen,
            forall|j: int| 0 <= j < i ==> is_key_char(#[trigger] body.key@[j]),
        decreases klen - i,
    {
        let c = body.key.as_str().get_char(i);
        if !(('a' <= c && c <= 'z') || ('0' <= c && c <= '9') || c == '_') {
            return false;
        }
        i += 1;
    }
    let vlen = body.value.as_str().unicode_len();
    1 <= vlen && vlen <= 128
}

/// Converts literal-rule rows to the (word, action label) pairs a
/// literal reload consumes, preserving order.
pub fn badword_rows_to_pairs(rows: &Vec<BadWordRow>) -> (r: Vec<(String, String)>)
    ensures
        r@.len() == rows@.len(),
        forall|i: int| 0 <= i < rows@.len() ==> #[trigger] r@[i].0@ == rows@[i].word@,
        forall|i: int| 0 <= i < rows@.len() ==> #[trigger] r@[i].1@
            == rows@[i].moderation_action.label_spec(),
{
    let mut out: Vec<(String, String)> = Vec::new();
    let n = rows.len();
    let mut i: usize = 0;
    while i < n
        invariant
            n == rows@.len(),
            i <= n,
            out@.len() == i,
            forall|j: int| 0 <= j < i ==> #[trigger] out@[j].0@ == rows@[j].word@,
            forall|j: int| 0 <= j < i ==> #[trigger] out@[j].1@
                == rows@[j].moderation_action.label_spec(),
        decreases n - i,
    {
        out.push((rows[i].word.clone(), rows[i].moderation_action.label()));
        i += 1;
    }
    out
}

/// Converts setting rows to the (key, value) pairs a settings reload
/// consumes, preserving order.
pub fn setting_rows_to_pairs(rows: &Vec<SettingRow>) -> (r: Vec<(String, String)>)
    ensures
        r@.len() == rows@.len(),
        forall|i: int| 0 <= i < rows@.len() ==> #[trigger] r@[i].0@ == rows@[i].key@,
        forall|i: int| 0 <= i < rows@.len() ==> #[trigger] r@[i].1@ == rows@[i].value@,
{
    let mut out: Vec<(String, String)> = Vec::new();
    let n = rows.len();
    let mut i: usize = 0;
    while i < n
        invariant
            n == rows@.len(),
            i <= n,
            out@.len() == i,
            forall|j: int| 0 <= j < i ==> #[trigger] out@[j].0@ == rows@[j].key@,
            forall|j: int| 0 <= j < i ==> #[trigger] out@[j].1@ == rows@[j].value@,
        decreases n - i,
    {
        out.push((rows[i].key.clone(), rows[i].value.clone()));
        i += 1;
    }
    out
}

} // verus!
