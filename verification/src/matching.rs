//! Choosing, among bookmarks or directory entries, those that hold a token.

use crate::chars::{chars_of, lowered, lowered_chars_of};
use crate::pattern::{contains, find, lemma_contains_empty};
use crate::tables::{Bookmark, BookmarkView};
use vstd::prelude::*;

verus! {

/// The collection that the numbers of a match set count into.
#[derive(Clone, Copy, Debug, PartialEq, Eq, Structural)]
pub enum MatchSource {
    /// The bookmark table.
    Bookmarks,
    /// The entries of the directory that is being browsed.
    Directory,
}

/// A bookmark is offered for a token that stands in its alias, letter case
/// respected.
pub open spec fn bookmark_matches(bookmark: BookmarkView, token: Seq<char>) -> bool {
    contains(bookmark.alias, token)
}

/// A directory entry is offered for a token that stands in its name, both
/// taken in ASCII lower case.
pub open spec fn entry_matches(name: Seq<char>, token: Seq<char>) -> bool {
    contains(lowered(name), lowered(token))
}

/// For each bookmark, whether it is offered for `token`.
pub open spec fn bookmark_hits(table: Seq<BookmarkView>, token: Seq<char>) -> Seq<bool> {
    Seq::new(table.len(), |i: int| bookmark_matches(table[i], token))
}

/// For each directory entry, whether it is offered for `token`.
pub open spec fn entry_hits(names: Seq<Seq<char>>, token: Seq<char>) -> Seq<bool> {
    Seq::new(names.len(), |i: int| entry_matches(names[i], token))
}

/// The positions at which `hits` is true, in rising order.
pub open spec fn positions(hits: Seq<bool>) -> Seq<usize>
    decreases hits.len(),
{
    if hits.len() == 0 {
        Seq::empty()
    } else {
        let before = positions(hits.drop_last());
        if hits.last() {
            before.push((hits.len() - 1) as usize)
        } else {
            before
        }
    }
}

/// `positions` lists exactly the true positions, each once, in rising order.
pub proof fn lemma_positions(hits: Seq<bool>)
    requires
        hits.len() <= usize::MAX,
    ensures
        positions(hits).len() <= hits.len(),
        forall|k: int|
            0 <= k < positions(hits).len() ==> (#[trigger] positions(hits)[k]) < hits.len()
                && hits[positions(hits)[k] as int],
        forall|a: int, b: int|
            0 <= a < b < positions(hits).len() ==> positions(hits)[a] < positions(hits)[b],
        forall|i: int|
            0 <= i < hits.len() ==> (positions(hits).contains(i as usize) <==> #[trigger] hits[i]),
    decreases hits.len(),
{
    if hits.len() > 0 {
        let shorter = hits.drop_last();
        let before = positions(shorter);
        lemma_positions(shorter);
        assert forall|i: int| 0 <= i < hits.len() implies (positions(hits).contains(i as usize)
            <==> #[trigger] hits[i]) by {
            if i < hits.len() - 1 {
                assert(shorter[i] == hits[i]);
                if before.contains(i as usize) {
                    let k = choose|k: int| 0 <= k < before.len() && before[k] == i as usize;
                    assert(positions(hits)[k] == i as usize);
                }
            } else if hits[i] {
                assert(positions(hits)[before.len() as int] == i as usize);
            }
        }
    }
}

/// The bookmarks offered for `token`, by their places in the table.
pub open spec fn matching_bookmarks(table: Seq<BookmarkView>, token: Seq<char>) -> Seq<usize> {
    positions(bookmark_hits(table, token))
}

/// The directory entries offered for `token`, by their places in the listing.
pub open spec fn matching_entries(names: Seq<Seq<char>>, token: Seq<char>) -> Seq<usize> {
    positions(entry_hits(names, token))
}

/// The empty token finds every bookmark and every directory entry.
pub proof fn lemma_empty_token_matches_all(bookmark: BookmarkView, name: Seq<char>)
    ensures
        bookmark_matches(bookmark, Seq::empty()),
        entry_matches(name, Seq::empty()),
{
    lemma_contains_empty(bookmark.alias);
    lemma_contains_empty(lowered(name));
    assert(lowered(Seq::<char>::empty()) =~= Seq::<char>::empty());
}

/// A bookmark is in the match set exactly if its alias holds the token, and a
/// directory entry exactly if its name does, letter case aside. The match set
/// keeps the order of the collection it was taken from.
pub proof fn lemma_match_set_is_exact(
    table: Seq<BookmarkView>,
    names: Seq<Seq<char>>,
    token: Seq<char>,
)
    requires
        table.len() <= usize::MAX,
        names.len() <= usize::MAX,
    ensures
        forall|i: int|
            #![trigger table[i]]
            0 <= i < table.len() ==> (matching_bookmarks(table, token).contains(i as usize)
                <==> contains(table[i].alias, token)),
        forall|i: int|
            #![trigger names[i]]
            0 <= i < names.len() ==> (matching_entries(names, token).contains(i as usize)
                <==> contains(lowered(names[i]), lowered(token))),
        forall|k: int|
            0 <= k < matching_bookmarks(table, token).len() ==> (#[trigger] matching_bookmarks(
                table,
                token,
            )[k]) < table.len(),
        forall|k: int|
            0 <= k < matching_entries(names, token).len() ==> (#[trigger] matching_entries(
                names,
                token,
            )[k]) < names.len(),
        forall|a: int, b: int|
            0 <= a < b < matching_bookmarks(table, token).len() ==> matching_bookmarks(
                table,
                token,
            )[a] < matching_bookmarks(table, token)[b],
        forall|a: int, b: int|
            0 <= a < b < matching_entries(names, token).len() ==> matching_entries(
                names,
                token,
            )[a] < matching_entries(names, token)[b],
{
    let bh = bookmark_hits(table, token);
    let eh = entry_hits(names, token);
    lemma_positions(bh);
    lemma_positions(eh);
    assert forall|i: int| #![trigger table[i]] 0 <= i < table.len() implies (matching_bookmarks(
        table,
        token,
    ).contains(i as usize) <==> contains(table[i].alias, token)) by {
        assert(bh[i] == bookmark_matches(table[i], token));
    }
    assert forall|i: int| #![trigger names[i]] 0 <= i < names.len() implies (matching_entries(
        names,
        token,
    ).contains(i as usize) <==> contains(lowered(names[i]), lowered(token))) by {
        assert(eh[i] == entry_matches(names[i], token));
    }
}

/// The places of the bookmarks whose alias holds `token`.
pub fn filter_bookmarks(table: &Vec<Bookmark>, token: &str) -> (found: Vec<usize>)
    ensures
        found@ == matching_bookmarks(table.deep_view(), token@),
        forall|i: int|
            #![trigger table[i]]
            0 <= i < table.len() ==> (found@.contains(i as usize) <==> contains(
                table[i].alias@,
                token@,
            )),
        forall|k: int| 0 <= k < found.len() ==> (#[trigger] found[k]) < table.len(),
        forall|a: int, b: int| 0 <= a < b < found.len() ==> found[a] < found[b],
{
    let wanted = chars_of(token);
    let n: usize = table.len();
    let mut found: Vec<usize> = Vec::new();
    let mut k: usize = 0;
    let ghost hits = bookmark_hits(table.deep_view(), token@);
    while k < n
        invariant
            n == table@.len(),
            k <= n,
            wanted@ == token@,
            hits == bookmark_hits(table.deep_view(), token@),
            found@ == positions(hits.take(k as int)),
        decreases n - k,
    {
        let alias = chars_of(table[k].alias.as_str());
        let hit = find(alias.as_slice(), wanted.as_slice()).is_some();
        assert(hits.take(k + 1).drop_last() =~= hits.take(k as int));
        if hit {
            found.push(k);
        }
        k += 1;
    }
    proof {
        assert(hits.take(n as int) =~= hits);
        lemma_match_set_is_exact(table.deep_view(), Seq::empty(), token@);
        assert forall|i: int| #![trigger table[i]] 0 <= i < table.len() implies (found@.contains(
            i as usize,
        ) <==> contains(table[i].alias@, token@)) by {
            assert(table.deep_view()[i] == table[i]@);
        }
    }
    found
}

/// The places of the names that hold `token`, letter case aside.
pub fn filter_entries(names: &Vec<String>, token: &str) -> (found: Vec<usize>)
    ensures
        found@ == matching_entries(names.deep_view(), token@),
        forall|i: int|
            #![trigger names[i]]
            0 <= i < names.len() ==> (found@.contains(i as usize) <==> contains(
                lowered(names[i]@),
                lowered(token@),
            )),
        forall|k: int| 0 <= k < found.len() ==> (#[trigger] found[k]) < names.len(),
        forall|a: int, b: int| 0 <= a < b < found.len() ==> found[a] < found[b],
{
    let wanted = lowered_chars_of(token);
    let n: usize = names.len();
    let mut found: Vec<usize> = Vec::new();
    let mut k: usize = 0;
    let ghost hits = entry_hits(names.deep_view(), token@);
    while k < n
        invariant
            n == names@.len(),
            k <= n,
            wanted@ == lowered(token@),
            hits == entry_hits(names.deep_view(), token@),
            found@ == positions(hits.take(k as int)),
        decreases n - k,
    {
        let name = lowered_chars_of(names[k].as_str());
        let hit = find(name.as_slice(), wanted.as_slice()).is_some();
        assert(hits.take(k + 1).drop_last() =~= hits.take(k as int));
        if hit {
            found.push(k);
        }
        k += 1;
    }
    proof {
        assert(hits.take(n as int) =~= hits);
        lemma_match_set_is_exact(Seq::empty(), names.deep_view(), token@);
        assert forall|i: int| #![trigger names[i]] 0 <= i < names.len() implies (found@.contains(
            i as usize,
        ) <==> contains(lowered(names[i]@), lowered(token@))) by {
            assert(names.deep_view()[i] == names[i]@);
        }
    }
    found
}

} // verus!
