//! The moderation cache: raw rule caches plus the two published
//! matching bundles, the wholesale reload operations that replace them,
//! and the decision procedure that consumes them.
//!
//! A reload builds the new bundle first and publishes it in one
//! assignment; on a build failure nothing is published and the
//! previously published bundle stays authoritative. The decision
//! procedure is a pure function of the published bundles and the text,
//! so a reader holding any one state of the cache always sees one
//! internally consistent bundle generation.

use vstd::prelude::*;
use vstd::string::StringExecFns;

use crate::automaton::{
    ac_buildable, build_literal_bundle, literal_published, lowered_words, BadWordsMatcher,
};
use crate::errors::Error;
use crate::models::{CommentRequest, ModerationResponse, RegexRuleRow};
use crate::rawcache::{
    lemma_submap_pair, rule_cache_contents, rule_cache_insert, rule_cache_invalidate_all,
    rule_cache_list, rule_cache_new, str_cache_contents, str_cache_insert,
    str_cache_invalidate_all, str_cache_list, str_cache_new, RuleCache, RuleEntry, StrCache,
};
use crate::regexes::{
    build_regex_bundle, described, first_regex_hit, regex_pattern_views, regex_published,
    regex_row_view, regex_row_views, rs_buildable, some_regex_match, RegexSetBundle,
};
use crate::text::{
    leftmost_first_hit, lower_of, lowercase, occurs_at, some_occurrence,
    lemma_leftmost_first_hit_unique,
};

verus! {

/// The process-wide moderation state: three raw rule caches for
/// introspection and the two published matching bundles.
pub struct ModerationCache {
    pub bad_words: StrCache,
    pub regex_rules: RuleCache,
    pub settings: StrCache,
    pub bad_words_matcher: Option<BadWordsMatcher>,
    pub regex_set_bundle: Option<RegexSetBundle>,
}

/// The view of an optional reason string.
pub open spec fn opt_view(o: Option<String>) -> Option<Seq<char>> {
    match o {
        Some(s) => Some(s@),
        None => None,
    }
}

/// `v` is the value of the last pair of `pairs` whose key is `k`.
pub open spec fn latest_pair<K, V>(pairs: Seq<(K, V)>, k: K, v: V) -> bool {
    exists|i: int|
        0 <= i < pairs.len() && (#[trigger] pairs[i]).0 == k && pairs[i].1 == v && (forall|j: int|
            i < j < pairs.len() ==> (#[trigger] pairs[j]).0 != k)
}

/// Appending a pair with another key keeps the latest pair of `k`.
proof fn lemma_latest_pair_extend<K, V>(pairs: Seq<(K, V)>, n: int, k: K, v: V)
    requires
        0 <= n < pairs.len(),
        latest_pair(pairs.take(n), k, v),
        pairs[n].0 != k,
    ensures
        latest_pair(pairs.take(n + 1), k, v),
{
    let t1 = pairs.take(n);
    let t2 = pairs.take(n + 1);
    let i0 = choose|i0: int|
        0 <= i0 < t1.len() && (#[trigger] t1[i0]).0 == k && t1[i0].1 == v && (forall|j: int|
            i0 < j < t1.len() ==> (#[trigger] t1[j]).0 != k);
    assert(t2[i0] == t1[i0]);
    assert forall|j: int| i0 < j < t2.len() implies (#[trigger] t2[j]).0 != k by {
        if j < n {
            assert(t2[j] == t1[j]);
        } else {
            assert(t2[j] == pairs[n]);
        }
    }
}

/// The pair just appended is the latest pair of its key.
proof fn lemma_latest_pair_last<K, V>(pairs: Seq<(K, V)>, n: int)
    requires
        0 <= n < pairs.len(),
    ensures
        latest_pair(pairs.take(n + 1), pairs[n].0, pairs[n].1),
{
    let t2 = pairs.take(n + 1);
    assert(t2[n] == pairs[n]);
    assert(0 <= n < t2.len() && (t2[n]).0 == pairs[n].0 && t2[n].1 == pairs[n].1 && (forall|j: int|
        n < j < t2.len() ==> (#[trigger] t2[j]).0 != pairs[n].0));
}

/// The `(normalized word, action)` pairs of the delivered rows, in row
/// order.
pub open spec fn lowered_pairs(rows: Seq<(Seq<char>, Seq<char>)>) -> Seq<(Seq<char>, Seq<char>)> {
    rows.map_values(|p: (Seq<char>, Seq<char>)| (lower_of(p.0), p.1))
}

/// The `(id, raw row)` pairs the regex cache is repopulated with, in
/// row order.
pub open spec fn regex_cache_rows(rows: Seq<RegexRuleRow>) -> Seq<(int, (Seq<char>, Seq<char>, Seq<char>))> {
    rows.map_values(
        |r: RegexRuleRow|
            (
                r.id as int,
                (r.pattern@, described(regex_row_view(r).2), r.moderation_action.label_spec()),
            ),
    )
}

/// What the literal stage answers on (already lowercased) `t`: the
/// action and reason of the leftmost-first matching word, or nothing
/// when no bundle is published or no word occurs.
pub open spec fn literal_stage(m: Option<BadWordsMatcher>, t: Seq<char>) -> Option<(Seq<char>, Seq<char>)> {
    match m {
        Some(b) => if some_occurrence(b.word_views(), t) {
            let (i, pos) = choose|i: int, pos: int| leftmost_first_hit(b.word_views(), t, i, pos);
            Some((b.actions@[i]@, "literal match: "@ + b.words@[i]@))
        } else {
            None
        },
        None => None,
    }
}

/// What the regex stage answers on (already lowercased) `t`: the
/// action and description of the lowest-indexed matching pattern, or
/// nothing when no bundle is published or no pattern matches.
pub open spec fn regex_stage(m: Option<RegexSetBundle>, t: Seq<char>) -> Option<(Seq<char>, Seq<char>)> {
    match m {
        Some(b) => if some_regex_match(b.pattern_views(), t) {
            let j = choose|j: int| first_regex_hit(b.pattern_views(), t, j);
            Some((b.actions@[j]@, b.descriptions@[j]@))
        } else {
            None
        },
        None => None,
    }
}

/// The regex stage's answer, or the default approval.
pub open spec fn regex_or_default(m: Option<RegexSetBundle>, t: Seq<char>) -> (Seq<char>, Option<Seq<char>>) {
    match regex_stage(m, t) {
        Some(sr) => (sr.0, Some(sr.1)),
        None => ("APPROVED"@, None),
    }
}

/// The decision on raw text: lowercase it, then the literal stage has
/// absolute priority, then the regex stage, then the default approval.
pub open spec fn response_spec(cache: ModerationCache, raw: Seq<char>) -> (Seq<char>, Option<Seq<char>>) {
    let t = lower_of(raw);
    match literal_stage(cache.bad_words_matcher, t) {
        Some(sr) => (sr.0, Some(sr.1)),
        None => regex_or_default(cache.regex_set_bundle, t),
    }
}

impl ModerationCache {
    /// Published bundles, when present, are internally consistent.
    pub open spec fn wf(self) -> bool {
        &&& (self.bad_words_matcher matches Some(b) ==> b.wf())
        &&& (self.regex_set_bundle matches Some(rb) ==> rb.wf())
    }

    /// A fresh cache: bounded raw caches, nothing published.
    pub fn new() -> (r: Self)
        ensures
            r.wf(),
            r.bad_words_matcher is None,
            r.regex_set_bundle is None,
            str_cache_contents(r.bad_words) =~= Map::empty(),
            rule_cache_contents(r.regex_rules) =~= Map::empty(),
            str_cache_contents(r.settings) =~= Map::empty(),
    {
        ModerationCache {
            bad_words: str_cache_new(50_000),
            regex_rules: rule_cache_new(10_000),
            settings: str_cache_new(1_000),
            bad_words_matcher: None,
            regex_set_bundle: None,
        }
    }

    /// Replaces the literal raw cache wholesale: cleared, then
    /// repopulated with the normalized pairs in row order, so a key
    /// still present maps to the action of the last row with that
    /// word. Presence of every pair is not promised: the cache's
    /// capacity bound may evict. The published bundles are untouched.
    pub fn refresh_bad_words_cache(&mut self, words: &Vec<(String, String)>)
        requires
            old(self).wf(),
        ensures
            final(self).wf(),
            final(self).bad_words_matcher == old(self).bad_words_matcher,
            final(self).regex_set_bundle == old(self).regex_set_bundle,
            final(self).regex_rules == old(self).regex_rules,
            final(self).settings == old(self).settings,
            forall|k: Seq<char>, v: Seq<char>|
                str_cache_contents(final(self).bad_words).contains_pair(k, v) ==> latest_pair(
                    lowered_pairs(words.deep_view()),
                    k,
                    v,
                ),
    {
        str_cache_invalidate_all(&mut self.bad_words);
        let n = words.len();
        let mut i: usize = 0;
        while i < n
            invariant
                n == words@.len(),
                i <= n,
                self.bad_words_matcher == old(self).bad_words_matcher,
                self.regex_set_bundle == old(self).regex_set_bundle,
                self.regex_rules == old(self).regex_rules,
                self.settings == old(self).settings,
                old(self).wf(),
                forall|k: Seq<char>, v: Seq<char>|
                    str_cache_contents(self.bad_words).contains_pair(k, v) ==> latest_pair(
                        lowered_pairs(words.deep_view()).take(i as int),
                        k,
                        v,
                    ),
            decreases n - i,
        {
            let normalized = lowercase(words[i].0.as_str());
            let action = words[i].1.clone();
            let ghost key_view = normalized@;
            let ghost val_view = action@;
            let ghost before = str_cache_contents(self.bad_words);
            str_cache_insert(&mut self.bad_words, normalized, action);
            proof {
                let lp = lowered_pairs(words.deep_view());
                assert(words.deep_view()[i as int] == (words@[i as int].0@, words@[i as int].1@));
                assert(lp[i as int] == (key_view, val_view));
                let cur = str_cache_contents(self.bad_words);
                let inserted = before.insert(key_view, val_view);
                assert(cur.submap_of(inserted));
                assert forall|k: Seq<char>, v: Seq<char>| cur.contains_pair(k, v) implies
                    latest_pair(lp.take(i as int + 1), k, v) by {
                    lemma_submap_pair(cur, inserted, k, v);
                    assert(inserted.contains_pair(k, v));
                    if k == key_view {
                        assert(v == val_view);
                        lemma_latest_pair_last(lp, i as int);
                    } else {
                        assert(before.contains_pair(k, v));
                        lemma_latest_pair_extend(lp, i as int, k, v);
                    }
                }
            }
            i += 1;
        }
        proof {
            assert(lowered_pairs(words.deep_view()).take(n as int) =~= lowered_pairs(
                words.deep_view(),
            ));
        }
    }

    /// Publishes a literal bundle, or its absence, in one assignment;
    /// the raw caches and the regex bundle are untouched.
    pub fn publish_bad_words(&mut self, m: Option<BadWordsMatcher>)
        requires
            old(self).wf(),
            m matches Some(b) ==> b.wf(),
        ensures
            final(self).wf(),
            final(self).bad_words_matcher == m,
            final(self).regex_set_bundle == old(self).regex_set_bundle,
            final(self).bad_words == old(self).bad_words,
            final(self).regex_rules == old(self).regex_rules,
            final(self).settings == old(self).settings,
    {
        self.bad_words_matcher = m;
    }

    /// Replaces the literal-word rules wholesale: the raw cache is
    /// cleared and repopulated with the normalized pairs, and a bundle
    /// over the full new set (or its absence, for an empty set) is
    /// published in one assignment. Succeeds exactly when the set is
    /// empty or the automaton builds over its normalized words; on a
    /// build failure the previously published bundle stays and the
    /// error is handed to the caller.
    pub fn load_bad_words(&mut self, words: Vec<(String, String)>) -> (r: Result<(), Error>)
        requires
            old(self).wf(),
        ensures
            final(self).wf(),
            final(self).regex_set_bundle == old(self).regex_set_bundle,
            final(self).regex_rules == old(self).regex_rules,
            final(self).settings == old(self).settings,
            r is Ok <==> (words@.len() == 0 || ac_buildable(lowered_words(words.deep_view()))),
            r is Ok ==> literal_published(final(self).bad_words_matcher, words.deep_view()),
            r is Err ==> final(self).bad_words_matcher == old(self).bad_words_matcher,
            r is Err ==> r matches Err(Error::Internal),
            forall|k: Seq<char>, v: Seq<char>|
                str_cache_contents(final(self).bad_words).contains_pair(k, v) ==> latest_pair(
                    lowered_pairs(words.deep_view()),
                    k,
                    v,
                ),
    {
        self.refresh_bad_words_cache(&words);
        match build_literal_bundle(&words) {
            Ok(m) => {
                self.publish_bad_words(m);
                Ok(())
            },
            Err(_) => Err(Error::Internal),
        }
    }

    /// Replaces the regex raw cache wholesale: cleared, then
    /// repopulated with the raw rows (description defaulted, action as
    /// its label) in row order, so an id still present maps to its
    /// last row. Presence of every pair is not promised: the cache's
    /// capacity bound may evict. The published bundles are untouched.
    pub fn refresh_regex_cache(&mut self, rows: &Vec<RegexRuleRow>)
        requires
            old(self).wf(),
        ensures
            final(self).wf(),
            final(self).bad_words_matcher == old(self).bad_words_matcher,
            final(self).regex_set_bundle == old(self).regex_set_bundle,
            final(self).bad_words == old(self).bad_words,
            final(self).settings == old(self).settings,
            forall|k: int, v: (Seq<char>, Seq<char>, Seq<char>)|
                rule_cache_contents(final(self).regex_rules).contains_pair(k, v) ==> latest_pair(
                    regex_cache_rows(rows@),
                    k,
                    v,
                ),
    {
        rule_cache_invalidate_all(&mut self.regex_rules);
        let n = rows.len();
        let mut i: usize = 0;
        while i < n
            invariant
                n == rows@.len(),
                i <= n,
                self.bad_words_matcher == old(self).bad_words_matcher,
                self.regex_set_bundle == old(self).regex_set_bundle,
                self.bad_words == old(self).bad_words,
                self.settings == old(self).settings,
                old(self).wf(),
                forall|k: int, v: (Seq<char>, Seq<char>, Seq<char>)|
                    rule_cache_contents(self.regex_rules).contains_pair(k, v) ==> latest_pair(
                        regex_cache_rows(rows@).take(i as int),
                        k,
                        v,
                    ),
            decreases n - i,
        {
            let description = match &rows[i].description {
                Some(d) => d.clone(),
                None => "regex rule".to_owned(),
            };
            let action = rows[i].moderation_action.label();
            let entry = (rows[i].pattern.clone(), description, action);
            let rule_id = rows[i].id;
            let ghost entry_view = entry.deep_view();
            let ghost before = rule_cache_contents(self.regex_rules);
            rule_cache_insert(&mut self.regex_rules, rule_id, entry);
            proof {
                let rcr = regex_cache_rows(rows@);
                assert(rcr[i as int] == (rule_id as int, entry_view));
                let cur = rule_cache_contents(self.regex_rules);
                let inserted = before.insert(rule_id as int, entry_view);
                assert(cur.submap_of(inserted));
                assert forall|k: int, v: (Seq<char>, Seq<char>, Seq<char>)|
                    cur.contains_pair(k, v) implies latest_pair(rcr.take(i as int + 1), k, v) by {
                    lemma_submap_pair(cur, inserted, k, v);
                    assert(inserted.contains_pair(k, v));
                    if k == rule_id as int {
                        assert(v == entry_view);
                        lemma_latest_pair_last(rcr, i as int);
                    } else {
                        assert(before.contains_pair(k, v));
                        lemma_latest_pair_extend(rcr, i as int, k, v);
                    }
                }
            }
            i += 1;
        }
        proof {
            assert(regex_cache_rows(rows@).take(n as int) =~= regex_cache_rows(rows@));
        }
    }

    /// Publishes a regex bundle, or its absence, in one assignment;
    /// the raw caches and the literal bundle are untouched.
    pub fn publish_regex_rules(&mut self, m: Option<RegexSetBundle>)
        requires
            old(self).wf(),
            m matches Some(b) ==> b.wf(),
        ensures
            final(self).wf(),
            final(self).regex_set_bundle == m,
            final(self).bad_words_matcher == old(self).bad_words_matcher,
            final(self).bad_words == old(self).bad_words,
            final(self).regex_rules == old(self).regex_rules,
            final(self).settings == old(self).settings,
    {
        self.regex_set_bundle = m;
    }

    /// Replaces the regex rules wholesale: the raw cache is cleared and
    /// repopulated with the raw rows, and a bundle over the full new
    /// set, in row order, is published in one assignment. Succeeds
    /// exactly when the set is empty or set compilation succeeds over
    /// its patterns; on a build failure — e.g. a persisted pattern
    /// that does not compile — the previously published bundle stays
    /// and the error is handed to the caller.
    pub fn load_regex_rules(&mut self, rows: Vec<RegexRuleRow>) -> (r: Result<(), Error>)
        requires
            old(self).wf(),
        ensures
            final(self).wf(),
            final(self).bad_words_matcher == old(self).bad_words_matcher,
            final(self).bad_words == old(self).bad_words,
            final(self).settings == old(self).settings,
            r is Ok <==> (rows@.len() == 0 || rs_buildable(regex_pattern_views(rows@))),
            r is Ok ==> regex_published(final(self).regex_set_bundle, regex_row_views(rows@)),
            r is Err ==> final(self).regex_set_bundle == old(self).regex_set_bundle,
            r is Err ==> r matches Err(Error::Regex(_)),
            forall|k: int, v: (Seq<char>, Seq<char>, Seq<char>)|
                rule_cache_contents(final(self).regex_rules).contains_pair(k, v) ==> latest_pair(
                    regex_cache_rows(rows@),
                    k,
                    v,
                ),
    {
        self.refresh_regex_cache(&rows);
        match build_regex_bundle(&rows) {
            Ok(m) => {
                self.publish_regex_rules(m);
                Ok(())
            },
            Err(e) => Err(Error::Regex(e)),
        }
    }

    /// Replaces the settings wholesale: the cache is cleared and
    /// repopulated with the given pairs in order, so a key still
    /// present maps to the value of its last pair; the matching
    /// bundles are untouched.
    pub fn load_settings(&mut self, items: Vec<(String, String)>)
        requires
            old(self).wf(),
        ensures
            final(self).wf(),
            final(self).bad_words_matcher == old(self).bad_words_matcher,
            final(self).regex_set_bundle == old(self).regex_set_bundle,
            final(self).bad_words == old(self).bad_words,
            final(self).regex_rules == old(self).regex_rules,
            forall|k: Seq<char>, v: Seq<char>|
                str_cache_contents(final(self).settings).contains_pair(k, v) ==> latest_pair(
                    items.deep_view(),
                    k,
                    v,
                ),
    {
        str_cache_invalidate_all(&mut self.settings);
        let n = items.len();
        let mut i: usize = 0;
        while i < n
            invariant
                n == items@.len(),
                i <= n,
                self.bad_words_matcher == old(self).bad_words_matcher,
                self.regex_set_bundle == old(self).regex_set_bundle,
                self.bad_words == old(self).bad_words,
                self.regex_rules == old(self).regex_rules,
                old(self).wf(),
                forall|k: Seq<char>, v: Seq<char>|
                    str_cache_contents(self.settings).contains_pair(k, v) ==> latest_pair(
                        items.deep_view().take(i as int),
                        k,
                        v,
                    ),
            decreases n - i,
        {
            let key = items[i].0.clone();
            let value = items[i].1.clone();
            let ghost key_view = key@;
            let ghost val_view = value@;
            let ghost before = str_cache_contents(self.settings);
            str_cache_insert(&mut self.settings, key, value);
            proof {
                let dv = items.deep_view();
                assert(dv[i as int] == (items@[i as int].0@, items@[i as int].1@));
                assert(dv[i as int] == (key_view, val_view));
                let cur = str_cache_contents(self.settings);
                let inserted = before.insert(key_view, val_view);
                assert(cur.submap_of(inserted));
                assert forall|k: Seq<char>, v: Seq<char>| cur.contains_pair(k, v) implies
                    latest_pair(dv.take(i as int + 1), k, v) by {
                    lemma_submap_pair(cur, inserted, k, v);
                    assert(inserted.contains_pair(k, v));
                    if k == key_view {
                        assert(v == val_view);
                        lemma_latest_pair_last(dv, i as int);
                    } else {
                        assert(before.contains_pair(k, v));
                        lemma_latest_pair_extend(dv, i as int, k, v);
                    }
                }
            }
            i += 1;
        }
        proof {
            assert(items.deep_view().take(n as int) =~= items.deep_view());
        }
    }

    /// Lists the cached literal rules as (normalized word, action
    /// label) pairs: exactly the cache's contents, each key once, in
    /// arbitrary order.
    pub fn list_badwords(&self) -> (r: Vec<(String, String)>)
        ensures
            forall|i: int| 0 <= i < r@.len() ==> str_cache_contents(self.bad_words).contains_pair(
                #[trigger] r@[i].0@,
                r@[i].1@,
            ),
            forall|k: Seq<char>, v: Seq<char>|
                #[trigger] str_cache_contents(self.bad_words).contains_pair(k, v) ==> exists|i: int|
                    0 <= i < r@.len() && (#[trigger] r@[i].0@) == k && r@[i].1@ == v,
            forall|a: int, c: int|
                0 <= a < c < r@.len() ==> (#[trigger] r@[a].0@) != (#[trigger] r@[c].0@),
    {
        let r = str_cache_list(&self.bad_words);
        proof {
            assert forall|k: Seq<char>, v: Seq<char>|
                str_cache_contents(self.bad_words).contains_pair(k, v) implies exists|i: int|
                    0 <= i < r@.len() && (#[trigger] r@[i].0@) == k && r@[i].1@ == v by {
                let p = (k, v);
                assert(str_cache_contents(self.bad_words).contains_pair(p.0, p.1));
            }
            assert forall|a: int, c: int| 0 <= a < c < r@.len() implies (#[trigger] r@[a].0@)
                != (#[trigger] r@[c].0@) by {
                let ij = (a, c);
                assert(0 <= ij.0 < ij.1 < r@.len());
            }
        }
        r
    }

    /// Lists the cached regex rules as (id, raw row) pairs: exactly
    /// the cache's contents, each id once, in arbitrary order.
    pub fn list_regex(&self) -> (r: Vec<(i32, RuleEntry)>)
        ensures
            forall|i: int| 0 <= i < r@.len() ==> rule_cache_contents(self.regex_rules).contains_pair(
                #[trigger] r@[i].0 as int,
                r@[i].1.deep_view(),
            ),
            forall|k: int, v: (Seq<char>, Seq<char>, Seq<char>)|
                #[trigger] rule_cache_contents(self.regex_rules).contains_pair(k, v)
                    ==> exists|i: int| 0 <= i < r@.len() && (#[trigger] r@[i].0) as int == k
                        && r@[i].1.deep_view() == v,
            forall|a: int, c: int|
                0 <= a < c < r@.len() ==> (#[trigger] r@[a].0) != (#[trigger] r@[c].0),
    {
        let r = rule_cache_list(&self.regex_rules);
        proof {
            assert forall|k: int, v: (Seq<char>, Seq<char>, Seq<char>)|
                rule_cache_contents(self.regex_rules).contains_pair(k, v) implies exists|i: int|
                    0 <= i < r@.len() && (#[trigger] r@[i].0) as int == k
                        && r@[i].1.deep_view() == v by {
                let p = (k, v);
                assert(rule_cache_contents(self.regex_rules).contains_pair(p.0, p.1));
            }
            assert forall|a: int, c: int| 0 <= a < c < r@.len() implies (#[trigger] r@[a].0)
                != (#[trigger] r@[c].0) by {
                let ij = (a, c);
                assert(0 <= ij.0 < ij.1 < r@.len());
            }
        }
        r
    }

    /// Lists the cached settings: exactly the cache's contents, each
    /// key once, in arbitrary order.
    pub fn list_settings(&self) -> (r: Vec<(String, String)>)
        ensures
            forall|i: int| 0 <= i < r@.len() ==> str_cache_contents(self.settings).contains_pair(
                #[trigger] r@[i].0@,
                r@[i].1@,
            ),
            forall|k: Seq<char>, v: Seq<char>|
                #[trigger] str_cache_contents(self.settings).contains_pair(k, v) ==> exists|i: int|
                    0 <= i < r@.len() && (#[trigger] r@[i].0@) == k && r@[i].1@ == v,
            forall|a: int, c: int|
                0 <= a < c < r@.len() ==> (#[trigger] r@[a].0@) != (#[trigger] r@[c].0@),
    {
        let r = str_cache_list(&self.settings);
        proof {
            assert forall|k: Seq<char>, v: Seq<char>|
                str_cache_contents(self.settings).contains_pair(k, v) implies exists|i: int|
                    0 <= i < r@.len() && (#[trigger] r@[i].0@) == k && r@[i].1@ == v by {
                let p = (k, v);
                assert(str_cache_contents(self.settings).contains_pair(p.0, p.1));
            }
            assert forall|a: int, c: int| 0 <= a < c < r@.len() implies (#[trigger] r@[a].0@)
                != (#[trigger] r@[c].0@) by {
                let ij = (a, c);
                assert(0 <= ij.0 < ij.1 < r@.len());
            }
        }
        r
    }
}

/// Decides one comment against the currently published bundles: the
/// text is lowercased; the literal stage has absolute priority, then
/// the regex stage, then the default approval. A pure function of the
/// published state and the text, with no error path.
pub fn moderate_comment(cache: &ModerationCache, req: &CommentRequest) -> (r: ModerationResponse)
    requires
        cache.wf(),
    ensures
        r.status@ == response_spec(*cache, req.content@).0,
        opt_view(r.reason) == response_spec(*cache, req.content@).1,
{
    let text = lowercase(req.content.as_str());
    let ghost t = lower_of(req.content@);
    match &cache.bad_words_matcher {
        Some(bundle) => {
            match bundle.find(text.as_str()) {
                Some(idx) => {
                    proof {
                        let pats = bundle.word_views();
                        let pos0 = choose|pos: int| leftmost_first_hit(pats, t, idx as int, pos);
                        assert(leftmost_first_hit(pats, t, idx as int, pos0));
                        assert(occurs_at(t, pats[idx as int], pos0));
                        assert(some_occurrence(pats, t));
                        let (i, pos) = choose|i: int, pos: int| leftmost_first_hit(pats, t, i, pos);
                        assert(leftmost_first_hit(pats, t, i, pos));
                        lemma_leftmost_first_hit_unique(pats, t, i, pos, idx as int, pos0);
                    }
                    let mut reason = "literal match: ".to_owned();
                    reason.append(bundle.words[idx].as_str());
                    return ModerationResponse {
                        status: bundle.actions[idx].clone(),
                        reason: Some(reason),
                    };
                },
                None => {},
            }
        },
        None => {},
    }
    match &cache.regex_set_bundle {
        Some(bundle) => {
            match bundle.find(text.as_str()) {
                Some(idx) => {
                    proof {
                        let pats = bundle.pattern_views();
                        assert(first_regex_hit(pats, t, idx as int));
                        assert(some_regex_match(pats, t));
                        let j = choose|j: int| first_regex_hit(pats, t, j);
                        assert(first_regex_hit(pats, t, j));
                        crate::regexes::lemma_first_regex_hit_unique(pats, t, j, idx as int);
                    }
                    return ModerationResponse {
                        status: bundle.actions[idx].clone(),
                        reason: Some(bundle.descriptions[idx].clone()),
                    };
                },
                None => {},
            }
        },
        None => {},
    }
    ModerationResponse { status: "APPROVED".to_owned(), reason: None }
}

} // verus!
