//! The literal-word matching stage: an Aho-Corasick automaton compiled
//! over the normalized words, plus parallel word/action metadata.

use vstd::prelude::*;

use crate::text::{leftmost_first_hit, lower_of, lowercase, some_occurrence};

verus! {

#[verifier::external_type_specification]
#[verifier::external_body]
pub struct ExAhoCorasick(aho_corasick::AhoCorasick);

/// The ordered pattern list an automaton was compiled from.
pub uninterp spec fn ac_patterns(ac: aho_corasick::AhoCorasick) -> Seq<Seq<char>>;

/// Whether automaton construction succeeds on this pattern list. Under
/// the fixed builder configuration used here, success is a
/// deterministic function of the patterns alone, so it is given a name
/// rather than written out.
pub uninterp spec fn ac_buildable(pats: Seq<Seq<char>>) -> bool;

/// The words of `(word, action)` rows, normalized in order.
pub open spec fn lowered_words(rows: Seq<(Seq<char>, Seq<char>)>) -> Seq<Seq<char>> {
    rows.map_values(|p: (Seq<char>, Seq<char>)| lower_of(p.0))
}

/// Relies on `AhoCorasickBuilder::build` with leftmost-first match
/// kind: on success the automaton searches exactly the given patterns,
/// in the given order, and whether it succeeds depends on the pattern
/// list alone, the builder configuration being fixed.
#[verifier::external_body]
fn ac_build(patterns: &Vec<String>) -> (r: Result<aho_corasick::AhoCorasick, String>)
    ensures
        r is Ok <==> ac_buildable(patterns.deep_view()),
        match r {
            Ok(ac) => ac_patterns(ac) == patterns.deep_view(),
            Err(_) => true,
        },
{
    let built = aho_corasick::AhoCorasick::builder()
        .match_kind(aho_corasick::MatchKind::LeftmostFirst)
        .build(patterns);
    match built {
        Ok(ac) => Ok(ac),
        Err(e) => Err(e.to_string()),
    }
}

/// Relies on `AhoCorasick::find` under leftmost-first semantics: it
/// reports the occurrence with the least starting position, ties going
/// to the pattern that appeared earlier when the automaton was built,
/// and reports nothing only when no pattern occurs at all.
#[verifier::external_body]
fn ac_find(ac: &aho_corasick::AhoCorasick, text: &str) -> (r: Option<usize>)
    ensures
        match r {
            Some(idx) => exists|pos: int| leftmost_first_hit(ac_patterns(*ac), text@, idx as int, pos),
            None => !some_occurrence(ac_patterns(*ac), text@),
        },
{
    ac.find(text).map(|m| m.pattern().as_usize())
}

/// An immutable literal-word matching bundle: the automaton and two
/// parallel arrays indexed by the automaton's pattern index. The words
/// are stored already normalized; the actions are action labels.
pub struct BadWordsMatcher {
    pub ac: aho_corasick::AhoCorasick,
    pub words: Vec<String>,
    pub actions: Vec<String>,
}

impl BadWordsMatcher {
    /// Internal consistency: pattern index `i` in the automaton is
    /// position `i` in both metadata arrays of the same build.
    pub open spec fn wf(self) -> bool {
        &&& ac_patterns(self.ac) == self.words.deep_view()
        &&& self.actions@.len() == self.words@.len()
    }

    /// The normalized words this bundle matches on.
    pub open spec fn word_views(self) -> Seq<Seq<char>> {
        self.words.deep_view()
    }

    /// Searches `text` and returns the index of the leftmost-first
    /// matching word, or `None` when no word occurs in `text`.
    pub fn find(&self, text: &str) -> (r: Option<usize>)
        requires
            self.wf(),
        ensures
            match r {
                Some(idx) => idx < self.words@.len() && exists|pos: int|
                    leftmost_first_hit(self.word_views(), text@, idx as int, pos),
                None => !some_occurrence(self.word_views(), text@),
            },
    {
        let r = ac_find(&self.ac, text);
        proof {
            if let Some(idx) = r {
                let pos = choose|pos: int|
                    leftmost_first_hit(ac_patterns(self.ac), text@, idx as int, pos);
                assert(leftmost_first_hit(self.word_views(), text@, idx as int, pos));
            }
        }
        r
    }
}

/// The published literal bundle corresponds to the delivered rows:
/// absent exactly when the row set is empty, and otherwise built over
/// the rows' words, normalized, in row order, with their actions.
pub open spec fn literal_published(m: Option<BadWordsMatcher>, rows: Seq<(Seq<char>, Seq<char>)>) -> bool {
    if rows.len() == 0 {
        m is None
    } else {
        &&& m matches Some(b)
        &&& b.wf()
        &&& b.words@.len() == rows.len()
        &&& forall|i: int| 0 <= i < rows.len() ==> #[trigger] b.words@[i]@ == lower_of(rows[i].0)
        &&& forall|i: int| 0 <= i < rows.len() ==> #[trigger] b.actions@[i]@ == rows[i].1
    }
}

/// Builds a literal bundle from `(word, action label)` pairs: words are
/// normalized to lowercase in order, duplicates kept. Returns
/// `Ok(None)` exactly on an empty input, and an error only when
/// automaton construction itself fails.
pub fn build_literal_bundle(rows: &Vec<(String, String)>) -> (r: Result<Option<BadWordsMatcher>, String>)
    ensures
        r is Ok <==> (rows@.len() == 0 || ac_buildable(lowered_words(rows.deep_view()))),
        match r {
            Ok(m) => literal_published(m, rows.deep_view()),
            Err(_) => true,
        },
{
    let mut patterns: Vec<String> = Vec::new();
    let mut actions: Vec<String> = Vec::new();
    let n = rows.len();
    let mut i: usize = 0;
    while i < n
        invariant
            n == rows@.len(),
            i <= n,
            patterns@.len() == i,
            actions@.len() == i,
            forall|k: int| 0 <= k < i ==> #[trigger] patterns@[k]@ == lower_of(rows@[k].0@),
            forall|k: int| 0 <= k < i ==> #[trigger] actions@[k]@ == rows@[k].1@,
        decreases n - i,
    {
        let normalized = lowercase(rows[i].0.as_str());
        patterns.push(normalized);
        actions.push(rows[i].1.clone());
        i += 1;
    }
    proof {
        assert forall|k: int| 0 <= k < rows@.len() implies #[trigger] patterns.deep_view()[k]
            == lowered_words(rows.deep_view())[k] by {
            assert(rows.deep_view()[k] == (rows@[k].0@, rows@[k].1@));
        }
        assert(patterns.deep_view() =~= lowered_words(rows.deep_view()));
    }
    if patterns.len() == 0 {
        Ok(None)
    } else {
        match ac_build(&patterns) {
            Ok(ac) => {
                let bundle = BadWordsMatcher { ac, words: patterns, actions };
                proof {
                    assert(bundle.wf());
                    assert forall|k: int| 0 <= k < rows.deep_view().len() implies
                        #[trigger] bundle.words@[k]@ == lower_of(rows.deep_view()[k].0) by {
                        assert(rows.deep_view()[k] == (rows@[k].0@, rows@[k].1@));
                    }
                    assert forall|k: int| 0 <= k < rows.deep_view().len() implies
                        #[trigger] bundle.actions@[k]@ == rows.deep_view()[k].1 by {
                        assert(rows.deep_view()[k] == (rows@[k].0@, rows@[k].1@));
                    }
                }
                Ok(Some(bundle))
            },
            Err(e) => Err(e),
        }
    }
}

} // verus!
