//! Replacing an occurrence of one text by another.

use crate::chars::chars_of;
use crate::pattern::{contains, find, first_occurrence, lemma_first_occurrence};
use vstd::prelude::*;

verus! {

/// `text` with the leftmost occurrence of `pat` replaced by `with`; `text`
/// itself where `pat` does not occur.
pub open spec fn replace_first(text: Seq<char>, pat: Seq<char>, with: Seq<char>) -> Seq<char> {
    if contains(text, pat) {
        let at = first_occurrence(text, pat);
        text.take(at) + with + text.skip(at + pat.len())
    } else {
        text
    }
}

/// `text` with the leftmost occurrence of `pat` replaced by `with`.
pub fn replace_first_str(text: &str, pat: &str, with: &str) -> (out: String)
    ensures
        out@ == replace_first(text@, pat@, with@),
{
    let t = chars_of(text);
    let p = chars_of(pat);
    let n: usize = t.len();
    let m: usize = p.len();
    match find(t.as_slice(), p.as_slice()) {
        Some(at) => {
            proof {
                lemma_first_occurrence(text@, pat@);
            }
            let mut out = text.substring_char(0, at).to_owned();
            out.append(with);
            out.append(text.substring_char(at + m, n));
            out
        },
        None => text.to_owned(),
    }
}

} // verus!
