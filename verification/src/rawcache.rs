//! The raw rule caches: bounded in-memory mappings from rule identity
//! to its raw row, kept for listing and introspection only — never on
//! the matching hot path. Backed by moka's sync cache, whose capacity
//! eviction is a safety valve, so the contracts promise at most what
//! that crate's documentation does: an insert adds at most the given
//! pair, a clear empties the mapping, and a listing returns exactly
//! the cached pairs, the caches being used without sharing.

use vstd::prelude::*;

verus! {

#[verifier::external_type_specification]
#[verifier::external_body]
#[verifier::reject_recursive_types(K)]
#[verifier::reject_recursive_types(V)]
#[verifier::reject_recursive_types(S)]
pub struct ExMokaCache<K, V, S>(moka::sync::Cache<K, V, S>);

/// A bounded mapping from normalized word (or setting key) to its value.
pub type StrCache = moka::sync::Cache<String, String>;

/// A raw regex-rule row: pattern, description, action label.
pub type RuleEntry = (String, String, String);

/// A bounded mapping from regex-rule id to its raw row.
pub type RuleCache = moka::sync::Cache<i32, RuleEntry>;

/// The key/value pairs a string-keyed cache currently holds.
pub uninterp spec fn str_cache_contents(c: StrCache) -> Map<Seq<char>, Seq<char>>;

/// The id-to-row pairs a regex-rule cache currently holds.
pub uninterp spec fn rule_cache_contents(c: RuleCache) -> Map<int, (Seq<char>, Seq<char>, Seq<char>)>;

/// A pair of a submap is a pair of the larger map.
pub proof fn lemma_submap_pair<K, V>(m1: Map<K, V>, m2: Map<K, V>, k: K, v: V)
    requires
        m1.submap_of(m2),
        m1.contains_pair(k, v),
    ensures
        m2.contains_pair(k, v),
{
    assert(m1.dom().contains(k));
}

/// Relies on `moka::sync::Cache::new`: a fresh cache bounded by
/// `max_capacity` holds nothing.
#[verifier::external_body]
pub fn str_cache_new(max_capacity: u64) -> (cache: StrCache)
    ensures
        str_cache_contents(cache) =~= Map::empty(),
{
    moka::sync::Cache::new(max_capacity)
}

/// Relies on `moka::sync::Cache::new`: a fresh cache bounded by
/// `max_capacity` holds nothing.
#[verifier::external_body]
pub fn rule_cache_new(max_capacity: u64) -> (cache: RuleCache)
    ensures
        rule_cache_contents(cache) =~= Map::empty(),
{
    moka::sync::Cache::new(max_capacity)
}

/// Relies on `moka::sync::Cache::insert`: the pair is inserted, an
/// existing value under the key is replaced, and capacity eviction may
/// drop entries — so afterwards the cache holds at most the old pairs
/// plus the new one.
#[verifier::external_body]
pub fn str_cache_insert(c: &mut StrCache, key: String, value: String)
    ensures
        str_cache_contents(*final(c)).submap_of(str_cache_contents(*old(c)).insert(key@, value@)),
{
    c.insert(key, value);
}

/// Relies on `moka::sync::Cache::insert`: the pair is inserted, an
/// existing value under the key is replaced, and capacity eviction may
/// drop entries — so afterwards the cache holds at most the old pairs
/// plus the new one.
#[verifier::external_body]
pub fn rule_cache_insert(c: &mut RuleCache, key: i32, value: RuleEntry)
    ensures
        rule_cache_contents(*final(c)).submap_of(
            rule_cache_contents(*old(c)).insert(key as int, value.deep_view()),
        ),
{
    c.insert(key, value);
}

/// Relies on `moka::sync::Cache::invalidate_all`: retrieval is
/// guaranteed not to return any entry inserted before the call.
#[verifier::external_body]
pub fn str_cache_invalidate_all(cache: &mut StrCache)
    ensures
        str_cache_contents(*final(cache)) =~= Map::empty(),
{
    cache.invalidate_all();
}

/// Relies on `moka::sync::Cache::invalidate_all`: retrieval is
/// guaranteed not to return any entry inserted before the call.
#[verifier::external_body]
pub fn rule_cache_invalidate_all(cache: &mut RuleCache)
    ensures
        rule_cache_contents(*final(cache)) =~= Map::empty(),
{
    cache.invalidate_all();
}

/// Relies on `moka::sync::Cache::iter`: every pair the iterator yields
/// is a cached pair, no entry is yielded twice, and — the caches here
/// being used exclusively, never cloned and mutated only through
/// `&mut`, so that nothing changes during a listing — every cached
/// pair is yielded. The order is arbitrary.
#[verifier::external_body]
pub fn str_cache_list(c: &StrCache) -> (r: Vec<(String, String)>)
    ensures
        forall|i: int| 0 <= i < r@.len() ==> str_cache_contents(*c).contains_pair(
            #[trigger] r@[i].0@,
            r@[i].1@,
        ),
        forall|p: (Seq<char>, Seq<char>)| #[trigger] str_cache_contents(*c).contains_pair(p.0, p.1)
            ==> exists|i: int| 0 <= i < r@.len() && (#[trigger] r@[i].0@) == p.0 && r@[i].1@ == p.1,
        forall|ij: (int, int)| 0 <= ij.0 < ij.1 < r@.len() ==> (#[trigger] r@[ij.0].0@)
            != (#[trigger] r@[ij.1].0@),
{
    let mut out = Vec::new();
    for (k, v) in c.iter() {
        out.push(((*k).clone(), v));
    }
    out
}

/// Relies on `moka::sync::Cache::iter`: every pair the iterator yields
/// is a cached pair, no entry is yielded twice, and — the caches here
/// being used exclusively, never cloned and mutated only through
/// `&mut`, so that nothing changes during a listing — every cached
/// pair is yielded. The order is arbitrary.
#[verifier::external_body]
pub fn rule_cache_list(c: &RuleCache) -> (r: Vec<(i32, RuleEntry)>)
    ensures
        forall|i: int| 0 <= i < r@.len() ==> rule_cache_contents(*c).contains_pair(
            #[trigger] r@[i].0 as int,
            r@[i].1.deep_view(),
        ),
        forall|p: (int, (Seq<char>, Seq<char>, Seq<char>))|
            #[trigger] rule_cache_contents(*c).contains_pair(p.0, p.1) ==> exists|i: int|
                0 <= i < r@.len() && (#[trigger] r@[i].0) as int == p.0 && r@[i].1.deep_view() == p.1,
        forall|ij: (int, int)| 0 <= ij.0 < ij.1 < r@.len() ==> (#[trigger] r@[ij.0].0)
            != (#[trigger] r@[ij.1].0),
{
    let mut out = Vec::new();
    for (k, v) in c.iter() {
        out.push((*k, v));
    }
    out
}

} // verus!
