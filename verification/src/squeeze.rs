//! Making each run of one character a single character.

use crate::chars::chars_of;
use crate::pattern::occurs_at;
use vstd::prelude::*;

verus! {

/// The character at position `at` is a `c` that follows a `c`.
pub open spec fn repeats(text: Seq<char>, c: char, at: int) -> bool {
    &&& 0 < at < text.len()
    &&& text[at] == c
    &&& text[at - 1] == c
}

/// Two neighbouring characters `c` stand in `text` at position `at`.
pub open spec fn pair_at(text: Seq<char>, c: char, at: int) -> bool {
    &&& 0 <= at
    &&& at + 2 <= text.len()
    &&& text[at] == c
    &&& text[at + 1] == c
}

/// `text` with each `c` that follows a `c` left out: every run of `c` is made
/// a single `c`, and nothing else changes.
pub open spec fn squeezed(text: Seq<char>, c: char) -> Seq<char>
    decreases text.len(),
{
    if text.len() == 0 {
        text
    } else {
        let before = squeezed(text.drop_last(), c);
        if repeats(text, c, text.len() - 1) {
            before
        } else {
            before.push(text.last())
        }
    }
}

/// A pair of characters `c` is an occurrence of the two-character text `cc`.
pub proof fn lemma_pair_occurs(text: Seq<char>, c: char, at: int)
    ensures
        pair_at(text, c, at) <==> occurs_at(text, seq![c, c], at),
{
    let pat = seq![c, c];
    if 0 <= at && at + 2 <= text.len() {
        let window = text.subrange(at, at + 2);
        if pair_at(text, c, at) {
            assert(window =~= pat);
        }
    }
}

/// Squeezing leaves no two `c` side by side, whatever the text. It makes no
/// text longer, and it keeps the last character.
pub proof fn lemma_squeezed_has_no_pair(text: Seq<char>, c: char)
    ensures
        forall|at: int| !pair_at(squeezed(text, c), c, at),
        squeezed(text, c).len() <= text.len(),
        text.len() > 0 ==> squeezed(text, c).len() > 0 && squeezed(text, c).last() == text.last(),
    decreases text.len(),
{
    if text.len() > 0 {
        let shorter = text.drop_last();
        lemma_squeezed_has_no_pair(shorter, c);
        let before = squeezed(shorter, c);
        let out = squeezed(text, c);
        assert forall|at: int| !pair_at(out, c, at) by {
            if pair_at(out, c, at) && (at + 2 < out.len() || repeats(text, c, text.len() - 1)) {
                assert(pair_at(before, c, at));
            }
        }
    }
}

/// A text without two `c` side by side is left as it is.
pub proof fn lemma_squeezed_keeps_text_without_pair(text: Seq<char>, c: char)
    requires
        forall|at: int| !pair_at(text, c, at),
    ensures
        squeezed(text, c) == text,
    decreases text.len(),
{
    if text.len() > 0 {
        let shorter = text.drop_last();
        assert forall|at: int| !pair_at(shorter, c, at) by {
            if pair_at(shorter, c, at) {
                assert(pair_at(text, c, at));
            }
        }
        lemma_squeezed_keeps_text_without_pair(shorter, c);
        if repeats(text, c, text.len() - 1) {
            assert(pair_at(text, c, text.len() - 2));
        }
    }
}

/// `text` with each run of `c` made a single `c`.
pub fn squeeze_str(text: &str, c: char) -> (out: String)
    ensures
        out@ == squeezed(text@, c),
        forall|at: int| !pair_at(out@, c, at),
{
    let t = chars_of(text);
    let n: usize = t.len();
    let mut out = String::new();
    let mut start: usize = 0;
    let mut at: usize = 0;
    while at < n
        invariant
            t@ == text@,
            n == t@.len(),
            start <= at <= n,
            out@ + text@.subrange(start as int, at as int) == squeezed(text@.take(at as int), c),
        decreases n - at,
    {
        let ghost upto = text@.take(at + 1);
        assert(upto.drop_last() =~= text@.take(at as int));
        if at > 0 && t[at] == c && t[at - 1] == c {
            out.append(text.substring_char(start, at));
            start = at + 1;
        }
        at += 1;
    }
    out.append(text.substring_char(start, n));
    proof {
        assert(text@.take(n as int) =~= text@);
        lemma_squeezed_has_no_pair(text@, c);
    }
    out
}

} // verus!
