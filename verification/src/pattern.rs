//! Occurrences of one text inside another.

use vstd::prelude::*;

verus! {

/// `pat` stands in `text` at position `at`.
pub open spec fn occurs_at(text: Seq<char>, pat: Seq<char>, at: int) -> bool {
    &&& 0 <= at
    &&& at + pat.len() <= text.len()
    &&& text.subrange(at, at + pat.len()) == pat
}

/// `pat` stands somewhere in `text` as a contiguous run of characters.
pub open spec fn contains(text: Seq<char>, pat: Seq<char>) -> bool {
    exists|at: int| occurs_at(text, pat, at)
}

/// `at` is the leftmost position at which `pat` stands in `text`.
pub open spec fn is_first_occurrence(text: Seq<char>, pat: Seq<char>, at: int) -> bool {
    &&& occurs_at(text, pat, at)
    &&& forall|before: int| 0 <= before < at ==> !occurs_at(text, pat, before)
}

/// The leftmost position at which `pat` stands in `text`; meaningful only
/// where `contains(text, pat)`.
pub open spec fn first_occurrence(text: Seq<char>, pat: Seq<char>) -> int {
    choose|at: int| is_first_occurrence(text, pat, at)
}

proof fn lemma_leftmost_exists(text: Seq<char>, pat: Seq<char>, at: int)
    requires
        occurs_at(text, pat, at),
    ensures
        exists|first: int| is_first_occurrence(text, pat, first),
    decreases at,
{
    if exists|before: int| 0 <= before < at && occurs_at(text, pat, before) {
        let before = choose|before: int| 0 <= before < at && occurs_at(text, pat, before);
        lemma_leftmost_exists(text, pat, before);
    } else {
        assert(is_first_occurrence(text, pat, at));
    }
}

/// Where `pat` occurs at all, `first_occurrence` is its leftmost occurrence.
pub proof fn lemma_first_occurrence(text: Seq<char>, pat: Seq<char>)
    requires
        contains(text, pat),
    ensures
        is_first_occurrence(text, pat, first_occurrence(text, pat)),
{
    let at = choose|at: int| occurs_at(text, pat, at);
    lemma_leftmost_exists(text, pat, at);
}

/// A leftmost occurrence is the leftmost occurrence.
pub proof fn lemma_first_occurrence_unique(text: Seq<char>, pat: Seq<char>, at: int)
    requires
        is_first_occurrence(text, pat, at),
    ensures
        contains(text, pat),
        first_occurrence(text, pat) == at,
{
}

/// The empty text stands in every text.
pub proof fn lemma_contains_empty(text: Seq<char>)
    ensures
        contains(text, Seq::<char>::empty()),
{
    assert(text.subrange(0, 0) =~= Seq::<char>::empty());
    assert(occurs_at(text, Seq::<char>::empty(), 0));
}

/// Occurrences in a suffix are the occurrences in the whole text, shifted.
pub proof fn lemma_occurs_in_suffix(text: Seq<char>, pat: Seq<char>, from: int, at: int)
    requires
        0 <= from <= text.len(),
    ensures
        occurs_at(text.skip(from), pat, at) <==> (0 <= at && occurs_at(text, pat, from + at)),
{
    if 0 <= at && from + at + pat.len() <= text.len() {
        assert(text.skip(from).subrange(at, at + pat.len()) =~= text.subrange(
            from + at,
            from + at + pat.len(),
        ));
    }
}

/// Whether `pat` stands in `text` at position `at`.
pub fn occurs_here(text: &[char], pat: &[char], at: usize) -> (r: bool)
    ensures
        r == occurs_at(text@, pat@, at as int),
{
    let n: usize = text.len();
    let m: usize = pat.len();
    if m > n || at > n - m {
        return false;
    }
    let mut k: usize = 0;
    while k < m
        invariant
            n == text@.len(),
            m == pat@.len(),
            at + m <= n,
            k <= m,
            forall|j: int| 0 <= j < k ==> text@[at + j] == pat@[j],
        decreases m - k,
    {
        if text[at + k] != pat[k] {
            return false;
        }
        k += 1;
    }
    assert(text@.subrange(at as int, at + m) =~= pat@);
    true
}

/// The leftmost position at or after `from` at which `pat` stands in `text`.
pub fn find_from(text: &[char], pat: &[char], from: usize) -> (r: Option<usize>)
    ensures
        match r {
            Some(at) => {
                &&& from <= at
                &&& occurs_at(text@, pat@, at as int)
                &&& forall|before: int| from <= before < at ==> !occurs_at(text@, pat@, before)
            },
            None => forall|at: int| from <= at ==> !occurs_at(text@, pat@, at),
        },
{
    let n: usize = text.len();
    let m: usize = pat.len();
    if m > n || from > n - m {
        return None;
    }
    let last: usize = n - m;
    let mut at: usize = from;
    while at < last
        invariant
            n == text@.len(),
            m == pat@.len(),
            last == n - m,
            from <= at <= last,
            forall|before: int| from <= before < at ==> !occurs_at(text@, pat@, before),
        decreases last - at,
    {
        if occurs_here(text, pat, at) {
            return Some(at);
        }
        at += 1;
    }
    if occurs_here(text, pat, last) {
        Some(last)
    } else {
        None
    }
}

/// The leftmost position at which `pat` stands in `text`, if it stands there at all.
pub fn find(text: &[char], pat: &[char]) -> (r: Option<usize>)
    ensures
        r is Some <==> contains(text@, pat@),
        r matches Some(at) ==> at == first_occurrence(text@, pat@),
{
    let r = find_from(text, pat, 0);
    proof {
        if let Some(at) = r {
            lemma_first_occurrence_unique(text@, pat@, at as int);
        }
    }
    r
}

} // verus!
