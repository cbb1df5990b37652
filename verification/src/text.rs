//! Text-level specifications shared by the matching stages: case
//! normalization and exact-substring occurrence.

use vstd::prelude::*;

verus! {

/// The Unicode lowercasing of a character sequence, as `str::to_lowercase`
/// computes it. The mapping depends on the characters alone, so it is
/// given a name here rather than written out.
pub uninterp spec fn lower_of(s: Seq<char>) -> Seq<char>;

/// Relies on `str::to_lowercase`: the result depends on the input
/// characters alone, and an empty input stays empty.
#[verifier::external_body]
pub fn lowercase(s: &str) -> (r: String)
    ensures
        r@ == lower_of(s@),
        s@.len() == 0 ==> r@.len() == 0,
{
    s.to_lowercase()
}

/// `pat` occurs in `text` as an exact substring starting at `pos`.
pub open spec fn occurs_at(text: Seq<char>, pat: Seq<char>, pos: int) -> bool {
    &&& 0 <= pos
    &&& pos + pat.len() <= text.len()
    &&& text.subrange(pos, pos + pat.len() as int) == pat
}

/// Some pattern of `pats` occurs somewhere in `text`.
pub open spec fn some_occurrence(pats: Seq<Seq<char>>, text: Seq<char>) -> bool {
    exists|i: int, pos: int| 0 <= i < pats.len() && occurs_at(text, pats[i], pos)
}

/// Pattern `i`, occurring at `pos`, is the match that leftmost-first
/// search reports: no pattern occurs at an earlier position, and no
/// earlier-listed pattern occurs at the same position.
pub open spec fn leftmost_first_hit(pats: Seq<Seq<char>>, text: Seq<char>, i: int, pos: int) -> bool {
    &&& 0 <= i < pats.len()
    &&& occurs_at(text, pats[i], pos)
    &&& forall|j: int, q: int| 0 <= j < pats.len() && occurs_at(text, pats[j], q) ==> pos <= q
    &&& forall|j: int| 0 <= j < i ==> !occurs_at(text, pats[j], pos)
}

/// Leftmost-first search reports at most one match: the starting
/// position is the minimum over all occurrences, and the pattern index
/// is the least one occurring there.
pub proof fn lemma_leftmost_first_hit_unique(
    pats: Seq<Seq<char>>,
    text: Seq<char>,
    i1: int,
    pos1: int,
    i2: int,
    pos2: int,
)
    requires
        leftmost_first_hit(pats, text, i1, pos1),
        leftmost_first_hit(pats, text, i2, pos2),
    ensures
        i1 == i2,
        pos1 == pos2,
{
    assert(pos1 <= pos2);
    assert(pos2 <= pos1);
    if i1 < i2 {
        assert(occurs_at(text, pats[i1], pos2));
        assert(false);
    }
    if i2 < i1 {
        assert(occurs_at(text, pats[i2], pos1));
        assert(false);
    }
}

/// Whenever any pattern occurs in the text, some pair is the
/// leftmost-first hit.
pub proof fn lemma_exists_leftmost_first_hit(pats: Seq<Seq<char>>, text: Seq<char>, i0: int, p0: int)
    requires
        0 <= i0 < pats.len(),
        occurs_at(text, pats[i0], p0),
    ensures
        exists|i: int, pos: int| leftmost_first_hit(pats, text, i, pos),
    decreases p0, i0,
{
    if exists|j: int, q: int| 0 <= j < pats.len() && occurs_at(text, pats[j], q) && q < p0 {
        let (j, q) = choose|j: int, q: int|
            0 <= j < pats.len() && occurs_at(text, pats[j], q) && q < p0;
        lemma_exists_leftmost_first_hit(pats, text, j, q);
    } else if exists|j: int| 0 <= j < i0 && occurs_at(text, pats[j], p0) {
        let j = choose|j: int| 0 <= j < i0 && occurs_at(text, pats[j], p0);
        lemma_exists_leftmost_first_hit(pats, text, j, p0);
    } else {
        assert(leftmost_first_hit(pats, text, i0, p0));
    }
}

} // verus!
