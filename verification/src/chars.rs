//! Characters of a text, and ASCII case folding.

use vstd::prelude::*;

verus! {

/// The ASCII lower-case form of a character: `A` to `Z` become `a` to `z`,
/// every other character is kept.
pub open spec fn lower(c: char) -> char {
    if 'A' <= c && c <= 'Z' {
        ((c as u8) + 32) as char
    } else {
        c
    }
}

/// A text with each of its characters in ASCII lower case.
pub open spec fn lowered(text: Seq<char>) -> Seq<char> {
    Seq::new(text.len(), |i: int| lower(text[i]))
}

/// The ASCII lower-case form of a character.
pub fn to_lower(c: char) -> (r: char)
    ensures
        r == lower(c),
{
    if c >= 'A' && c <= 'Z' {
        let code: u8 = c as u8;
        let folded: u8 = code + 32;
        folded as char
    } else {
        c
    }
}

/// The characters of a string, in order.
pub fn chars_of(text: &str) -> (chars: Vec<char>)
    ensures
        chars@ == text@,
{
    let mut chars: Vec<char> = Vec::new();
    for c in it: text.chars()
        invariant
            chars@ == it.seq().take(it.index() as int),
    {
        chars.push(c);
    }
    chars
}

/// The characters of a string, each in ASCII lower case.
pub fn lowered_chars_of(text: &str) -> (chars: Vec<char>)
    ensures
        chars@ == lowered(text@),
{
    let mut chars: Vec<char> = Vec::new();
    for c in it: text.chars()
        invariant
            chars@ == lowered(it.seq().take(it.index() as int)),
    {
        chars.push(to_lower(c));
    }
    chars
}

} // verus!
