//! Laws of the decision procedure, proved over the published-bundle
//! model: literal priority, lowest-id regex tie-break, absence
//! semantics, and reload idempotence.

use vstd::prelude::*;

use crate::automaton::{literal_published, BadWordsMatcher};
use crate::cache::{
    literal_stage, opt_view, regex_or_default, regex_stage, response_spec, ModerationCache,
};
use crate::regexes::{
    first_regex_hit, lemma_exists_first_regex_hit, lemma_first_regex_hit_unique, regex_match,
    regex_published, rs_patterns, some_regex_match, RegexSetBundle,
};
use crate::text::{
    leftmost_first_hit, lemma_exists_leftmost_first_hit, lemma_leftmost_first_hit_unique, lower_of,
    occurs_at, some_occurrence,
};

verus! {

/// Priority: whenever a published literal word matches the lowercased
/// text, the decision is that word's action and reason — whatever the
/// regex bundle holds, and in particular even when a regex rule
/// matches too.
pub proof fn lemma_literal_priority(
    cache: ModerationCache,
    b: BadWordsMatcher,
    raw: Seq<char>,
    i: int,
    pos: int,
)
    requires
        cache.bad_words_matcher == Some(b),
        leftmost_first_hit(b.word_views(), lower_of(raw), i, pos),
    ensures
        response_spec(cache, raw).0 == b.actions@[i]@,
        response_spec(cache, raw).1 == Some("literal match: "@ + b.words@[i]@),
{
    let t = lower_of(raw);
    let pats = b.word_views();
    assert(occurs_at(t, pats[i], pos));
    assert(some_occurrence(pats, t));
    let (ci, cpos) = choose|ci: int, cpos: int| leftmost_first_hit(pats, t, ci, cpos);
    assert(leftmost_first_hit(pats, t, ci, cpos));
    lemma_leftmost_first_hit_unique(pats, t, ci, cpos, i, pos);
}

/// The rows delivered to a regex reload are in strictly ascending id
/// order.
pub open spec fn ids_ascending(rows: Seq<(int, Seq<char>, Option<Seq<char>>, Seq<char>)>) -> bool {
    forall|a: int, c: int| 0 <= a < c < rows.len() ==> #[trigger] rows[a].0 < #[trigger] rows[c].0
}

/// Tie-break (regex): with a bundle published from rows in ascending
/// id order, the reported rule is rule `j`, and its id is no greater
/// than the id of any other rule whose pattern matches.
pub proof fn lemma_regex_lowest_id(
    cache: ModerationCache,
    b: RegexSetBundle,
    rows: Seq<(int, Seq<char>, Option<Seq<char>>, Seq<char>)>,
    t: Seq<char>,
    j: int,
    k: int,
)
    requires
        cache.regex_set_bundle == Some(b),
        regex_published(Some(b), rows),
        ids_ascending(rows),
        first_regex_hit(b.pattern_views(), t, j),
        0 <= k < rows.len(),
        regex_match(rows[k].1, t),
    ensures
        rows[j].0 <= rows[k].0,
        regex_stage(cache.regex_set_bundle, t) == Some((b.actions@[j]@, b.descriptions@[j]@)),
{
    let pats = b.pattern_views();
    assert(pats[k] == rows[k].1);
    assert(regex_match(pats[k], t));
    if k < j {
        assert(!regex_match(pats[k], t));
    }
    assert(j <= k);
    if j < k {
        assert(rows[j].0 < rows[k].0);
    }
    assert(some_regex_match(pats, t));
    let cj = choose|cj: int| first_regex_hit(pats, t, cj);
    assert(first_regex_hit(pats, t, cj));
    lemma_first_regex_hit_unique(pats, t, cj, j);
}

/// Absence semantics: after a reload with an empty literal rule set no
/// literal bundle is published, and the decision on any text is the
/// regex stage's answer or the default approval — never a literal
/// match, whatever words were cached before.
pub proof fn lemma_literal_absence(cache: ModerationCache, raw: Seq<char>)
    requires
        literal_published(cache.bad_words_matcher, Seq::empty()),
    ensures
        response_spec(cache, raw) == regex_or_default(cache.regex_set_bundle, lower_of(raw)),
{
    assert(cache.bad_words_matcher is None);
}

/// Idempotent reload: two caches whose literal bundles were published
/// from the same row set and whose regex bundles agree decide every
/// text identically. A literal reload succeeds or fails as a function
/// of its rows alone, publishes a bundle determined by them, and
/// leaves the regex bundle alone, so reloading the same rows twice
/// yields identical decisions.
pub proof fn lemma_reload_idempotent(
    c1: ModerationCache,
    c2: ModerationCache,
    rows: Seq<(Seq<char>, Seq<char>)>,
    raw: Seq<char>,
)
    requires
        literal_published(c1.bad_words_matcher, rows),
        literal_published(c2.bad_words_matcher, rows),
        c1.regex_set_bundle == c2.regex_set_bundle,
    ensures
        response_spec(c1, raw) == response_spec(c2, raw),
{
    let t = lower_of(raw);
    if rows.len() == 0 {
        assert(c1.bad_words_matcher is None);
        assert(c2.bad_words_matcher is None);
    } else {
        let b1 = c1.bad_words_matcher->Some_0;
        let b2 = c2.bad_words_matcher->Some_0;
        let w1 = b1.word_views();
        let w2 = b2.word_views();
        assert forall|i: int| 0 <= i < rows.len() implies #[trigger] w1[i] == w2[i] by {
            assert(b1.words@[i]@ == lower_of(rows[i].0));
            assert(b2.words@[i]@ == lower_of(rows[i].0));
        }
        assert(w1 =~= w2);
        if some_occurrence(w1, t) {
            let (oi, opos) = choose|oi: int, opos: int|
                0 <= oi < w1.len() && occurs_at(t, w1[oi], opos);
            lemma_exists_leftmost_first_hit(w1, t, oi, opos);
            let (i1, p1) = choose|i1: int, p1: int| leftmost_first_hit(w1, t, i1, p1);
            assert(leftmost_first_hit(w1, t, i1, p1));
            let (i2, p2) = choose|i2: int, p2: int| leftmost_first_hit(w2, t, i2, p2);
            assert(leftmost_first_hit(w2, t, i2, p2));
            lemma_leftmost_first_hit_unique(w1, t, i1, p1, i2, p2);
            assert(b1.actions@[i1]@ == rows[i1].1);
            assert(b2.actions@[i1]@ == rows[i1].1);
            assert(b1.words@[i1]@ == b2.words@[i1]@);
            assert(literal_stage(c1.bad_words_matcher, t) == literal_stage(
                c2.bad_words_matcher,
                t,
            ));
        } else {
            assert(!some_occurrence(w2, t));
            assert(literal_stage(c1.bad_words_matcher, t) is None);
            assert(literal_stage(c2.bad_words_matcher, t) is None);
        }
    }
}

/// Idempotent reload, regex side: two caches whose regex bundles were
/// published from the same row set and whose literal bundles agree
/// decide every text identically.
pub proof fn lemma_regex_reload_idempotent(
    c1: ModerationCache,
    c2: ModerationCache,
    rows: Seq<(int, Seq<char>, Option<Seq<char>>, Seq<char>)>,
    raw: Seq<char>,
)
    requires
        regex_published(c1.regex_set_bundle, rows),
        regex_published(c2.regex_set_bundle, rows),
        c1.bad_words_matcher == c2.bad_words_matcher,
    ensures
        response_spec(c1, raw) == response_spec(c2, raw),
{
    let t = lower_of(raw);
    if rows.len() == 0 {
        assert(c1.regex_set_bundle is None);
        assert(c2.regex_set_bundle is None);
    } else {
        let b1 = c1.regex_set_bundle->Some_0;
        let b2 = c2.regex_set_bundle->Some_0;
        let p1 = b1.pattern_views();
        let p2 = b2.pattern_views();
        assert forall|i: int| 0 <= i < rows.len() implies #[trigger] p1[i] == p2[i] by {
            assert(rs_patterns(b1.set)[i] == rows[i].1);
            assert(rs_patterns(b2.set)[i] == rows[i].1);
        }
        assert(p1 =~= p2);
        if some_regex_match(p1, t) {
            let m0 = choose|m0: int| 0 <= m0 < p1.len() && regex_match(p1[m0], t);
            lemma_exists_first_regex_hit(p1, t, m0);
            let j1 = choose|j1: int| first_regex_hit(p1, t, j1);
            assert(first_regex_hit(p1, t, j1));
            let j2 = choose|j2: int| first_regex_hit(p2, t, j2);
            assert(first_regex_hit(p2, t, j2));
            lemma_first_regex_hit_unique(p1, t, j1, j2);
            assert(b1.actions@[j1]@ == rows[j1].3);
            assert(b2.actions@[j1]@ == rows[j1].3);
            assert(b1.descriptions@[j1]@ == crate::regexes::described(rows[j1].2));
            assert(b2.descriptions@[j1]@ == crate::regexes::described(rows[j1].2));
            assert(regex_stage(c1.regex_set_bundle, t) == regex_stage(c2.regex_set_bundle, t));
        } else {
            assert(!some_regex_match(p2, t));
            assert(regex_stage(c1.regex_set_bundle, t) is None);
            assert(regex_stage(c2.regex_set_bundle, t) is None);
        }
    }
}

} // verus!
