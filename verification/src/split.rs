//! Cutting a text at a separator and putting pieces together again.

use crate::chars::chars_of;
use crate::pattern::{
    contains, find, find_from, first_occurrence, is_first_occurrence, lemma_first_occurrence,
    lemma_first_occurrence_unique, lemma_occurs_in_suffix, occurs_at,
};
use vstd::prelude::*;

verus! {

/// The pieces of `text` between the occurrences of `pat`, found from the left
/// and never overlapping. A text without an occurrence is its own single
/// piece, and so is every text when `pat` is empty.
pub open spec fn split(text: Seq<char>, pat: Seq<char>) -> Seq<Seq<char>>
    decreases text.len(),
    via split_decreases
{
    if pat.len() > 0 && contains(text, pat) {
        let at = first_occurrence(text, pat);
        seq![text.take(at)] + split(text.skip(at + pat.len()), pat)
    } else {
        seq![text]
    }
}

#[via_fn]
proof fn split_decreases(text: Seq<char>, pat: Seq<char>) {
    if pat.len() > 0 && contains(text, pat) {
        lemma_first_occurrence(text, pat);
    }
}

/// The pieces in order, with `sep` between each two neighbours.
pub open spec fn join(parts: Seq<Seq<char>>, sep: Seq<char>) -> Seq<char>
    decreases parts.len(),
{
    if parts.len() == 0 {
        Seq::empty()
    } else if parts.len() == 1 {
        parts[0]
    } else {
        parts[0] + sep + join(parts.skip(1), sep)
    }
}

/// What stands before the leftmost occurrence of `pat`; all of `text` where
/// `pat` does not occur.
pub open spec fn before_first(text: Seq<char>, pat: Seq<char>) -> Seq<char> {
    if contains(text, pat) {
        text.take(first_occurrence(text, pat))
    } else {
        text
    }
}

/// What stands after the leftmost occurrence of `pat`, where there is one.
pub open spec fn after_first(text: Seq<char>, pat: Seq<char>) -> Option<Seq<char>> {
    if contains(text, pat) {
        Some(text.skip(first_occurrence(text, pat) + pat.len()))
    } else {
        None
    }
}

/// A split always has at least one piece.
pub proof fn lemma_split_nonempty(text: Seq<char>, pat: Seq<char>)
    ensures
        split(text, pat).len() >= 1,
{
}

/// Splitting at the leftmost occurrence: the text before it, then the pieces
/// of what follows it.
pub proof fn lemma_split_at_first(text: Seq<char>, pat: Seq<char>, at: int)
    requires
        pat.len() > 0,
        is_first_occurrence(text, pat, at),
    ensures
        split(text, pat) == seq![text.take(at)] + split(text.skip(at + pat.len()), pat),
{
    lemma_first_occurrence_unique(text, pat, at);
}

/// Joining after one more piece appends the separator and that piece.
pub proof fn lemma_join_push(parts: Seq<Seq<char>>, last: Seq<char>, sep: Seq<char>)
    requires
        parts.len() > 0,
    ensures
        join(parts.push(last), sep) == join(parts, sep) + sep + last,
    decreases parts.len(),
{
    let longer = parts.push(last);
    if parts.len() == 1 {
        assert(join(longer.skip(1), sep) == last);
    } else {
        lemma_join_push(parts.skip(1), last, sep);
        assert(longer.skip(1) =~= parts.skip(1).push(last));
    }
}

/// Joining a first piece with further pieces.
pub proof fn lemma_join_front(first: Seq<char>, rest: Seq<Seq<char>>, sep: Seq<char>)
    requires
        rest.len() > 0,
    ensures
        join(seq![first] + rest, sep) == first + sep + join(rest, sep),
{
    let all = seq![first] + rest;
    assert(all.skip(1) =~= rest);
}

/// Joining the pieces of a text with the separator they were cut at gives
/// the text back.
pub proof fn lemma_join_split(text: Seq<char>, pat: Seq<char>)
    ensures
        join(split(text, pat), pat) == text,
    decreases text.len(),
{
    if pat.len() > 0 && contains(text, pat) {
        lemma_first_occurrence(text, pat);
        let at = first_occurrence(text, pat);
        let rest = text.skip(at + pat.len());
        lemma_join_split(rest, pat);
        lemma_join_front(text.take(at), split(rest, pat), pat);
    }
}

/// Cuts `text` at each occurrence of `pat`.
pub fn split_str(text: &str, pat: &str) -> (parts: Vec<String>)
    ensures
        parts.deep_view() == split(text@, pat@),
{
    let t = chars_of(text);
    let p = chars_of(pat);
    let n: usize = t.len();
    let m: usize = p.len();
    let mut parts: Vec<String> = Vec::new();
    if m == 0 {
        parts.push(text.to_owned());
        return parts;
    }
    let mut start: usize = 0;
    assert(text@.skip(0) =~= text@);
    loop
        invariant
            t@ == text@,
            p@ == pat@,
            n == t@.len(),
            m == p@.len(),
            m > 0,
            start <= n,
            split(text@, pat@) == parts.deep_view() + split(text@.skip(start as int), pat@),
        decreases n - start,
    {
        let ghost tail = text@.skip(start as int);
        match find_from(t.as_slice(), p.as_slice(), start) {
            Some(at) => {
                let piece = text.substring_char(start, at).to_owned();
                proof {
                    assert forall|before: int| 0 <= before < at - start implies !occurs_at(
                        tail,
                        pat@,
                        before,
                    ) by {
                        lemma_occurs_in_suffix(text@, pat@, start as int, before);
                    }
                    lemma_occurs_in_suffix(text@, pat@, start as int, at - start);
                    lemma_split_at_first(tail, pat@, at - start);
                    assert(tail.take(at - start) =~= text@.subrange(start as int, at as int));
                    assert(tail.skip(at - start + m) =~= text@.skip(at + m));
                }
                parts.push(piece);
                start = at + m;
            },
            None => {
                let piece = text.substring_char(start, n).to_owned();
                proof {
                    assert forall|at: int| !occurs_at(tail, pat@, at) by {
                        lemma_occurs_in_suffix(text@, pat@, start as int, at);
                    }
                }
                parts.push(piece);
                return parts;
            },
        }
    }
}

/// Cuts `text` once, at the leftmost occurrence of `pat`.
pub fn cut_str(text: &str, pat: &str) -> (halves: (String, Option<String>))
    ensures
        halves.0@ == before_first(text@, pat@),
        halves.1 is Some <==> contains(text@, pat@),
        halves.1 matches Some(after) ==> Some(after@) == after_first(text@, pat@),
{
    let t = chars_of(text);
    let p = chars_of(pat);
    let n: usize = t.len();
    let m: usize = p.len();
    match find(t.as_slice(), p.as_slice()) {
        Some(at) => {
            proof {
                lemma_first_occurrence(text@, pat@);
            }
            let before = text.substring_char(0, at).to_owned();
            let after = text.substring_char(at + m, n).to_owned();
            (before, Some(after))
        },
        None => (text.to_owned(), None),
    }
}

/// Puts `parts` together with `sep` between them.
pub fn join_strs(parts: &Vec<String>, sep: &str) -> (joined: String)
    ensures
        joined@ == join(parts.deep_view(), sep@),
{
    let mut joined = String::new();
    let n: usize = parts.len();
    if n == 0 {
        return joined;
    }
    joined.append(parts[0].as_str());
    let mut k: usize = 1;
    while k < n
        invariant
            n == parts@.len(),
            1 <= k <= n,
            joined@ == join(parts.deep_view().take(k as int), sep@),
        decreases n - k,
    {
        proof {
            let done = parts.deep_view().take(k as int);
            lemma_join_push(done, parts[k as int]@, sep@);
            assert(parts.deep_view().take(k + 1) =~= done.push(parts[k as int]@));
        }
        joined.append(sep);
        joined.append(parts[k].as_str());
        k += 1;
    }
    assert(parts.deep_view().take(n as int) =~= parts.deep_view());
    joined
}

} // verus!
