//! The regex matching stage: a compiled multi-pattern set over the rule
//! patterns in ascending-id order, plus parallel description/action
//! metadata.

use vstd::prelude::*;

use crate::models::RegexRuleRow;

verus! {

#[verifier::external_type_specification]
#[verifier::external_body]
pub struct ExRegexSet(regex::RegexSet);

/// The ordered pattern list a regex set was compiled from.
pub uninterp spec fn rs_patterns(set: regex::RegexSet) -> Seq<Seq<char>>;

/// Whether the regular expression `pattern` matches anywhere in `text`
/// (unanchored). The relation depends on the two sequences alone, so it
/// is given a name here rather than written out.
pub uninterp spec fn regex_match(pattern: Seq<char>, text: Seq<char>) -> bool;

/// Whether `pattern` compiles as a regular expression under the regex
/// crate's default configuration.
pub uninterp spec fn regex_valid(pattern: Seq<char>) -> bool;

/// Whether set compilation succeeds on this pattern list. Under the
/// default configuration, success is a deterministic function of the
/// patterns alone, so it is given a name rather than written out.
pub uninterp spec fn rs_buildable(pats: Seq<Seq<char>>) -> bool;

/// The patterns of a delivered regex row set, in row order.
pub open spec fn regex_pattern_views(rows: Seq<RegexRuleRow>) -> Seq<Seq<char>> {
    rows.map_values(|r: RegexRuleRow| r.pattern@)
}

/// Relies on `RegexSet::new`: on success the set holds exactly the
/// given patterns, in the given order, and whether it succeeds depends
/// on the pattern list alone, the configuration being the default.
#[verifier::external_body]
fn rs_build(patterns: &Vec<String>) -> (r: Result<regex::RegexSet, String>)
    ensures
        r is Ok <==> rs_buildable(patterns.deep_view()),
        match r {
            Ok(set) => rs_patterns(set) == patterns.deep_view(),
            Err(_) => true,
        },
{
    match regex::RegexSet::new(patterns) {
        Ok(set) => Ok(set),
        Err(e) => Err(e.to_string()),
    }
}

/// Relies on `RegexSet::matches`: the reported indices are exactly the
/// patterns matching the text, iterated in ascending order, so the
/// first one is the least matching index.
#[verifier::external_body]
fn rs_first_match(set: &regex::RegexSet, text: &str) -> (r: Option<usize>)
    ensures
        match r {
            Some(idx) => regex_match(rs_patterns(*set)[idx as int], text@)
                && first_regex_hit(rs_patterns(*set), text@, idx as int),
            None => !some_regex_match(rs_patterns(*set), text@),
        },
{
    set.matches(text).into_iter().next()
}

/// Relies on `Regex::new`: it succeeds exactly on the patterns that
/// compile under the default configuration.
#[verifier::external_body]
fn regex_compiles(pattern: &str) -> (r: bool)
    ensures
        r == regex_valid(pattern@),
{
    regex::Regex::new(pattern).is_ok()
}

/// Whether `pattern` is a valid regular expression; administrators'
/// patterns are checked with this before they ever reach the store.
pub fn pattern_is_valid(pattern: &str) -> (r: bool)
    ensures
        r == regex_valid(pattern@),
{
    regex_compiles(pattern)
}

/// Pattern `j` matches `text` and no earlier-listed pattern does.
pub open spec fn first_regex_hit(pats: Seq<Seq<char>>, text: Seq<char>, j: int) -> bool {
    &&& 0 <= j < pats.len()
    &&& regex_match(pats[j], text)
    &&& forall|k: int| 0 <= k < j ==> !regex_match(pats[k], text)
}

/// Some pattern of `pats` matches `text`.
pub open spec fn some_regex_match(pats: Seq<Seq<char>>, text: Seq<char>) -> bool {
    exists|j: int| 0 <= j < pats.len() && regex_match(pats[j], text)
}

/// Whenever any pattern matches the text, some index is the first
/// matching one.
pub proof fn lemma_exists_first_regex_hit(pats: Seq<Seq<char>>, text: Seq<char>, j0: int)
    requires
        0 <= j0 < pats.len(),
        regex_match(pats[j0], text),
    ensures
        exists|j: int| first_regex_hit(pats, text, j),
    decreases j0,
{
    if exists|k: int| 0 <= k < j0 && regex_match(pats[k], text) {
        let k = choose|k: int| 0 <= k < j0 && regex_match(pats[k], text);
        lemma_exists_first_regex_hit(pats, text, k);
    } else {
        assert(first_regex_hit(pats, text, j0));
    }
}

/// At most one index is the first matching one.
pub proof fn lemma_first_regex_hit_unique(pats: Seq<Seq<char>>, text: Seq<char>, j1: int, j2: int)
    requires
        first_regex_hit(pats, text, j1),
        first_regex_hit(pats, text, j2),
    ensures
        j1 == j2,
{
    if j1 < j2 {
        assert(!regex_match(pats[j1], text));
    }
    if j2 < j1 {
        assert(!regex_match(pats[j2], text));
    }
}

/// An immutable regex matching bundle: the compiled set and two
/// parallel arrays indexed by pattern position.
pub struct RegexSetBundle {
    pub set: regex::RegexSet,
    pub descriptions: Vec<String>,
    pub actions: Vec<String>,
}

impl RegexSetBundle {
    /// Internal consistency: pattern position `i` in the set is
    /// position `i` in both metadata arrays of the same build.
    pub open spec fn wf(self) -> bool {
        &&& self.descriptions@.len() == rs_patterns(self.set).len()
        &&& self.actions@.len() == rs_patterns(self.set).len()
    }

    /// The patterns this bundle matches on.
    pub open spec fn pattern_views(self) -> Seq<Seq<char>> {
        rs_patterns(self.set)
    }

    /// Returns the least pattern index matching `text`, or `None` when
    /// no pattern matches.
    pub fn find(&self, text: &str) -> (r: Option<usize>)
        requires
            self.wf(),
        ensures
            match r {
                Some(idx) => idx < self.actions@.len()
                    && first_regex_hit(self.pattern_views(), text@, idx as int),
                None => !some_regex_match(self.pattern_views(), text@),
            },
    {
        rs_first_match(&self.set, text)
    }
}

/// The view of one regex rule row: id, pattern, description, action label.
pub open spec fn regex_row_view(r: RegexRuleRow) -> (int, Seq<char>, Option<Seq<char>>, Seq<char>) {
    (
        r.id as int,
        r.pattern@,
        match r.description {
            Some(d) => Some(d@),
            None => None,
        },
        r.moderation_action.label_spec(),
    )
}

/// The description a rule is reported with: its own, or the fixed
/// placeholder when it has none.
pub open spec fn described(d: Option<Seq<char>>) -> Seq<char> {
    match d {
        Some(s) => s,
        None => "regex rule"@,
    }
}

/// The published regex bundle corresponds to the delivered rows: absent
/// exactly when the row set is empty, and otherwise compiled over the
/// rows' patterns in row order, with their descriptions and actions.
pub open spec fn regex_published(
    m: Option<RegexSetBundle>,
    rows: Seq<(int, Seq<char>, Option<Seq<char>>, Seq<char>)>,
) -> bool {
    if rows.len() == 0 {
        m is None
    } else {
        &&& m matches Some(b)
        &&& b.wf()
        &&& rs_patterns(b.set).len() == rows.len()
        &&& forall|i: int| 0 <= i < rows.len() ==> #[trigger] rs_patterns(b.set)[i] == rows[i].1
        &&& forall|i: int| 0 <= i < rows.len() ==> #[trigger] b.descriptions@[i]@ == described(rows[i].2)
        &&& forall|i: int| 0 <= i < rows.len() ==> #[trigger] b.actions@[i]@ == rows[i].3
    }
}

/// The sequence of row views of a delivered row set.
pub open spec fn regex_row_views(rows: Seq<RegexRuleRow>) -> Seq<(int, Seq<char>, Option<Seq<char>>, Seq<char>)> {
    rows.map_values(|r: RegexRuleRow| regex_row_view(r))
}

/// Builds a regex bundle from rule rows (delivered in ascending-id
/// order, which fixes match priority). Missing descriptions get the
/// fixed placeholder. Returns `Ok(None)` exactly on an empty input, and
/// an error only when set compilation fails, e.g. on a pattern that
/// does not compile.
pub fn build_regex_bundle(rows: &Vec<RegexRuleRow>) -> (r: Result<Option<RegexSetBundle>, String>)
    ensures
        r is Ok <==> (rows@.len() == 0 || rs_buildable(regex_pattern_views(rows@))),
        match r {
            Ok(m) => regex_published(m, regex_row_views(rows@)),
            Err(_) => true,
        },
{
    let mut patterns: Vec<String> = Vec::new();
    let mut descriptions: Vec<String> = Vec::new();
    let mut actions: Vec<String> = Vec::new();
    let n = rows.len();
    let mut i: usize = 0;
    while i < n
        invariant
            n == rows@.len(),
            i <= n,
            patterns@.len() == i,
            descriptions@.len() == i,
            actions@.len() == i,
            forall|k: int| 0 <= k < i ==> #[trigger] patterns@[k]@ == rows@[k].pattern@,
            forall|k: int| 0 <= k < i ==> #[trigger] descriptions@[k]@ == described(regex_row_view(rows@[k]).2),
            forall|k: int| 0 <= k < i ==> #[trigger] actions@[k]@ == rows@[k].moderation_action.label_spec(),
        decreases n - i,
    {
        patterns.push(rows[i].pattern.clone());
        match &rows[i].description {
            Some(d) => descriptions.push(d.clone()),
            None => descriptions.push("regex rule".to_owned()),
        }
        actions.push(rows[i].moderation_action.label());
        i += 1;
    }
    proof {
        assert forall|k: int| 0 <= k < rows@.len() implies #[trigger] patterns.deep_view()[k]
            == regex_pattern_views(rows@)[k] by {}
        assert(patterns.deep_view() =~= regex_pattern_views(rows@));
    }
    if patterns.len() == 0 {
        Ok(None)
    } else {
        match rs_build(&patterns) {
            Ok(set) => {
                let bundle = RegexSetBundle { set, descriptions, actions };
                proof {
                    let views = regex_row_views(rows@);
                    assert(bundle.wf());
                    assert forall|k: int| 0 <= k < views.len() implies
                        #[trigger] rs_patterns(bundle.set)[k] == views[k].1 by {
                        assert(patterns.deep_view()[k] == patterns@[k]@);
                    }
                    assert forall|k: int| 0 <= k < views.len() implies
                        #[trigger] bundle.descriptions@[k]@ == described(views[k].2) by {}
                    assert forall|k: int| 0 <= k < views.len() implies
                        #[trigger] bundle.actions@[k]@ == views[k].3 by {}
                }
                Ok(Some(bundle))
            },
            Err(e) => Err(e),
        }
    }
}

} // verus!
