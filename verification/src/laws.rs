//! What holds of the overlay whatever is typed.

use crate::listing::lemma_directory_names_len;
use crate::matching::{
    lemma_match_set_is_exact, matching_bookmarks, matching_entries, MatchSource,
};
use crate::model::{segments, token, Event, State};
use crate::resolve::resolved_path;
use crate::tables::{BookmarkView, CommandView};
use vstd::prelude::*;

verus! {

impl State {
    /// Command line and breadcrumbs are in step: the command line has one
    /// part more than there are breadcrumbs, the part being typed. Then the
    /// matches come from the directory exactly when there is a breadcrumb,
    /// and only below a breadcrumb is there a cache or is a listing awaited.
    pub open spec fn in_step(self) -> bool {
        &&& segments(self.text).len() == self.stack.len() + 1
        &&& self.matches.len() > 0 ==> (self.source == MatchSource::Directory <==> self.stack.len()
            > 0)
        &&& self.awaiting ==> self.stack.len() > 0
        &&& self.stack.len() == 0 ==> self.cache.len() == 0
    }

    /// The change of the command line to `text` is one that leaves command
    /// line and breadcrumbs in step: it adds or removes at most one part
    /// beyond the breadcrumbs, or it tries to descend where nothing matches.
    /// An emptied command line is such a change only with no breadcrumb left,
    /// since nothing is done about an empty command line.
    pub open spec fn keeps_step(self, text: Seq<char>) -> bool {
        let parts = segments(text).len();
        let depth = self.stack.len();
        ||| !self.visible
        ||| text.len() == 0 && depth == 0
        ||| text.len() > 0 && depth <= parts <= depth + 2
        ||| text.len() > 0 && parts > depth + 2 && self.matches.len() == 0
    }

    /// The match set is up to date: with a command line typed, it holds
    /// exactly the candidates that the token finds, from the cached
    /// directories where the command line has more than one part, else from
    /// the bookmarks.
    pub open spec fn matches_are_current(self) -> bool {
        self.text.len() > 0 ==> if segments(self.text).len() > 1 {
            &&& self.source == MatchSource::Directory
            &&& self.matches == matching_entries(self.cache, token(self.text))
        } else {
            &&& self.source == MatchSource::Bookmarks
            &&& self.matches == matching_bookmarks(self.bookmarks, token(self.text))
        }
    }

    /// The name behind the selected match, told by the depth alone: a
    /// directory's name below a breadcrumb, a bookmark's path at the top.
    pub open spec fn top_by_depth(self) -> Option<Seq<char>> {
        if self.matches.len() == 0 {
            None
        } else if self.stack.len() > 0 {
            Some(self.cache[self.matches[0] as int])
        } else {
            Some(self.bookmarks[self.matches[0] as int].path)
        }
    }
}

/// A new overlay is valid, and its command line and breadcrumbs are in step.
pub proof fn lemma_initial_in_step(bookmarks: Seq<BookmarkView>, commands: Seq<CommandView>)
    requires
        bookmarks.len() <= usize::MAX,
    ensures
        State::initial(bookmarks, commands).valid(),
        State::initial(bookmarks, commands).in_step(),
{
}

/// A valid overlay is valid after every event: whatever is typed or listed,
/// each match stays a place in the collection it was taken from.
pub proof fn lemma_valid_is_kept(s: State, event: Event)
    requires
        s.valid(),
        event matches Event::Listed(Some(entries)) ==> entries.len() <= usize::MAX,
    ensures
        s.next(event).valid(),
{
    match event {
        Event::Show => {},
        Event::Edit(text) => {
            lemma_match_set_is_exact(s.bookmarks, s.cache, token(text));
        },
        Event::Listed(listing) => {
            if s.awaiting {
                let cache = s.listed(listing).cache;
                if let Some(entries) = listing {
                    lemma_directory_names_len(entries);
                }
                lemma_match_set_is_exact(s.bookmarks, cache, token(s.text));
            }
        },
        Event::Commit => {},
        Event::Reset => {},
    }
}

/// The match set is up to date after every event: it holds the candidates
/// that hold the token being typed, all of them and no other. While a listing
/// is awaited the cache is empty, and so is the match set.
pub proof fn lemma_matches_stay_current(s: State, event: Event)
    requires
        s.matches_are_current(),
        s.awaiting ==> s.text.len() > 0 && segments(s.text).len() > 1,
    ensures
        s.next(event).matches_are_current(),
        s.next(event).awaiting ==> s.next(event).text.len() > 0 && segments(
            s.next(event).text,
        ).len() > 1,
{
}

/// Command line and breadcrumbs stay in step: once they are, they are again
/// after every event, as long as each change of the command line is one that
/// `keeps_step` admits.
pub proof fn lemma_step_is_kept(s: State, event: Event)
    requires
        s.valid(),
        s.in_step(),
        event matches Event::Edit(text) ==> s.keeps_step(text),
    ensures
        s.next(event).in_step(),
{
}

/// A change of the command line that `keeps_step` does not admit brings
/// command line and breadcrumbs out of step.
pub proof fn lemma_step_is_lost(s: State, text: Seq<char>)
    requires
        s.in_step(),
        !s.keeps_step(text),
    ensures
        !s.edited(text).in_step(),
{
}

/// Descending needs a match: a command line with two or more parts beyond the
/// breadcrumbs, met with an empty match set, clears everything.
pub proof fn lemma_descending_without_match_clears(s: State, text: Seq<char>)
    requires
        s.valid(),
        segments(text).len() >= s.stack.len() + 2,
        s.matches.len() == 0,
    ensures
        s.edited(text).text == Seq::<char>::empty(),
        s.edited(text).stack == Seq::<Seq<char>>::empty(),
        s.edited(text).matches == Seq::<usize>::empty(),
        s.edited(text).is_clear(),
{
}

/// With no breadcrumb, the selected match is a bookmark, and the resolved
/// path is made of its path alone.
pub proof fn lemma_path_without_breadcrumb(s: State)
    requires
        s.valid(),
        s.stack.len() == 0,
        s.matches.len() > 0,
    ensures
        s.source == MatchSource::Bookmarks,
        s.matches[0] < s.bookmarks.len(),
        s.top() == Some(s.bookmarks[s.matches[0] as int].path),
        s.path() == resolved_path(Seq::empty(), Some(s.bookmarks[s.matches[0] as int].path)),
{
}

/// In step, the resolved path is made of the breadcrumbs and of the selected
/// directory's name below a breadcrumb, of the selected bookmark's path at
/// the top.
pub proof fn lemma_path_in_step(s: State)
    requires
        s.in_step(),
    ensures
        s.top() == s.top_by_depth(),
        s.path() == resolved_path(s.stack, s.top_by_depth()),
{
}

/// The resolved path is told by the state alone: as long as the state is the
/// same, resolving again gives the same path.
pub proof fn lemma_resolving_is_repeatable(s: State, first: Seq<char>, second: Seq<char>)
    requires
        first == s.path(),
        second == s.path(),
    ensures
        first == second,
{
}

/// The cache never outlives a change of depth: when a breadcrumb is added or
/// dropped, the cache is empty until a new listing comes in.
pub proof fn lemma_depth_change_drops_cache(s: State, text: Seq<char>)
    requires
        s.edited(text).stack.len() != s.stack.len(),
    ensures
        s.edited(text).cache == Seq::<Seq<char>>::empty(),
        s.edited(text).matches.len() > 0 ==> s.edited(text).source == MatchSource::Bookmarks,
{
}

/// A listing that failed leaves an empty cache and no match.
pub proof fn lemma_failed_listing_leaves_no_candidates(s: State)
    requires
        s.awaiting,
    ensures
        s.listed(None).cache == Seq::<Seq<char>>::empty(),
        s.listed(None).matches == Seq::<usize>::empty(),
        s.listed(None).stack == s.stack,
        s.listed(None).text == s.text,
{
}

/// Every commit leaves the overlay off screen and clear, whatever the command
/// line asked for.
pub proof fn lemma_commit_leaves_clear(s: State)
    ensures
        !s.committed().visible,
        s.committed().is_clear(),
{
}

/// Showing an overlay that is on screen changes nothing.
pub proof fn lemma_show_is_idempotent(s: State)
    ensures
        s.shown().shown() == s.shown(),
        s.visible ==> s.shown() == s,
{
}

} // verus!
