//! The overlay as a state and its steps, in mathematical terms.

use crate::dispatch::{dispatch_of, label_of, ActionView};
use crate::listing::{directory_names, EntryView};
use crate::matching::{matching_bookmarks, matching_entries, MatchSource};
use crate::resolve::resolved_path;
use crate::split::split;
use crate::tables::{BookmarkView, CommandView};
use vstd::prelude::*;

verus! {

/// The parts of a command line: what follows the trigger character, cut at
/// each space. The last part is the token being typed; each part before it
/// stands for one breadcrumb. The empty command line has one empty part.
pub open spec fn segments(text: Seq<char>) -> Seq<Seq<char>> {
    if text.len() == 0 {
        seq![Seq::empty()]
    } else {
        split(text.skip(1), " "@)
    }
}

/// The token being typed: the last part of the command line.
pub open spec fn token(text: Seq<char>) -> Seq<char> {
    segments(text).last()
}

/// All that the overlay knows at one moment.
pub struct State {
    /// The bookmark table; never changes.
    pub bookmarks: Seq<BookmarkView>,
    /// The command table; never changes.
    pub commands: Seq<CommandView>,
    /// Whether the overlay is on screen and taking input.
    pub visible: bool,
    /// The command line as typed.
    pub text: Seq<char>,
    /// The breadcrumbs: the names the user has descended through.
    pub stack: Seq<Seq<char>>,
    /// The directories found in the directory being browsed.
    pub cache: Seq<Seq<char>>,
    /// The collection that `matches` counts into.
    pub source: MatchSource,
    /// The candidates for the token, by their places in `source`; the first
    /// is the selected one.
    pub matches: Seq<usize>,
    /// Whether a listing of the directory at the breadcrumbs has been asked for
    /// and not yet delivered.
    pub awaiting: bool,
}

/// What happens to an overlay.
pub enum Event {
    /// The hotkey was pressed.
    Show,
    /// The command line now reads this text.
    Edit(Seq<char>),
    /// The listing that was asked for, or its failure.
    Listed(Option<Seq<EntryView>>),
    /// Enter was pressed.
    Commit,
    /// Everything typed and browsed is dropped.
    Reset,
}

impl State {
    /// The overlay as it starts: on screen, with nothing typed.
    pub open spec fn initial(bookmarks: Seq<BookmarkView>, commands: Seq<CommandView>) -> State {
        State {
            bookmarks,
            commands,
            visible: true,
            text: Seq::empty(),
            stack: Seq::empty(),
            cache: Seq::empty(),
            source: MatchSource::Bookmarks,
            matches: Seq::empty(),
            awaiting: false,
        }
    }

    /// Nothing is typed, browsed, cached, matched or awaited.
    pub open spec fn is_clear(self) -> bool {
        &&& self.text.len() == 0
        &&& self.stack.len() == 0
        &&& self.cache.len() == 0
        &&& self.source == MatchSource::Bookmarks
        &&& self.matches.len() == 0
        &&& !self.awaiting
    }

    /// The size of the collection that `matches` counts into.
    pub open spec fn source_len(self) -> nat {
        match self.source {
            MatchSource::Bookmarks => self.bookmarks.len(),
            MatchSource::Directory => self.cache.len(),
        }
    }

    /// What holds of every overlay: each match is a place in its source, the
    /// matches stand in the order of their source, with no breadcrumb the
    /// source is the bookmark table, a listing is awaited only below a
    /// breadcrumb, an overlay that is off screen is clear, and both
    /// collections can be counted in a machine word.
    pub open spec fn valid(self) -> bool {
        &&& forall|k: int| 0 <= k < self.matches.len() ==> self.matches[k] < self.source_len()
        &&& forall|a: int, b: int|
            0 <= a < b < self.matches.len() ==> self.matches[a] < self.matches[b]
        &&& self.stack.len() == 0 ==> self.source == MatchSource::Bookmarks
        &&& self.awaiting ==> self.stack.len() > 0
        &&& !self.visible ==> self.is_clear()
        &&& self.bookmarks.len() <= usize::MAX
        &&& self.cache.len() <= usize::MAX
    }

    /// The name behind the match at place `k` of the match set: a bookmark's
    /// path, or a directory's name.
    pub open spec fn name_of_match(self, k: int) -> Seq<char> {
        match self.source {
            MatchSource::Bookmarks => self.bookmarks[self.matches[k] as int].path,
            MatchSource::Directory => self.cache[self.matches[k] as int],
        }
    }

    /// The name behind the selected match, where there is a match.
    pub open spec fn top(self) -> Option<Seq<char>> {
        if self.matches.len() > 0 {
            Some(self.name_of_match(0))
        } else {
            None
        }
    }

    /// The path that the breadcrumbs and the selected match stand for.
    pub open spec fn path(self) -> Seq<char> {
        resolved_path(self.stack, self.top())
    }

    /// What the overlay shows for the match at place `k`: alias and path of a
    /// bookmark, or a directory's name.
    pub open spec fn label_of_match(self, k: int) -> Seq<char> {
        match self.source {
            MatchSource::Bookmarks => {
                let bookmark = self.bookmarks[self.matches[k] as int];
                bookmark.alias + " - "@ + bookmark.path
            },
            MatchSource::Directory => self.cache[self.matches[k] as int],
        }
    }

    /// What the overlay shows for the trigger character.
    pub open spec fn command_label(self) -> Seq<char> {
        label_of(self.text, self.commands)
    }

    /// The state with everything typed, browsed, cached and matched dropped.
    pub open spec fn cleared(self) -> State {
        State {
            text: Seq::empty(),
            stack: Seq::empty(),
            cache: Seq::empty(),
            source: MatchSource::Bookmarks,
            matches: Seq::empty(),
            awaiting: false,
            ..self
        }
    }

    /// The state on screen.
    pub open spec fn shown(self) -> State {
        State { visible: true, ..self }
    }

    /// The state with the cache dropped and a new listing asked for.
    pub open spec fn relisting(self) -> State {
        State {
            cache: Seq::empty(),
            source: MatchSource::Directory,
            matches: Seq::empty(),
            awaiting: true,
            ..self
        }
    }

    /// The state with the match set taken anew: from the cached directories
    /// where the command line has more than one part, else from the bookmarks.
    pub open spec fn refiltered(self) -> State {
        if segments(self.text).len() > 1 {
            State {
                source: MatchSource::Directory,
                matches: matching_entries(self.cache, token(self.text)),
                awaiting: false,
                ..self
            }
        } else {
            State {
                source: MatchSource::Bookmarks,
                matches: matching_bookmarks(self.bookmarks, token(self.text)),
                awaiting: false,
                ..self
            }
        }
    }

    /// The state after the command line has changed to `text`.
    ///
    /// An overlay off screen takes no input. An empty command line is kept
    /// and nothing else changes. Otherwise the parts of `text` are held
    /// against the breadcrumbs. With two or more parts beyond them, the
    /// selected match becomes a breadcrumb, or, with no match, everything is
    /// cleared. With no part beyond them, the last breadcrumb is dropped.
    /// Either change drops the cache, and a listing is asked for if `text` has
    /// more than one part. Wherever no listing is asked for, the match set is
    /// taken anew.
    pub open spec fn edited(self, text: Seq<char>) -> State {
        let parts = segments(text).len();
        if !self.visible {
            self
        } else if text.len() == 0 {
            State { text, awaiting: false, ..self }
        } else if parts >= self.stack.len() + 2 {
            if self.matches.len() == 0 {
                self.cleared()
            } else {
                State { text, stack: self.stack.push(self.name_of_match(0)), ..self }.relisting()
            }
        } else if parts <= self.stack.len() {
            let popped = State {
                text,
                stack: self.stack.drop_last(),
                cache: Seq::empty(),
                ..self
            };
            if parts > 1 {
                popped.relisting()
            } else {
                popped.refiltered()
            }
        } else {
            State { text, ..self }.refiltered()
        }
    }

    /// The state after a listing has come in. Only a listing that was asked
    /// for is taken. Its directories become the cache, a failed listing an
    /// empty cache, and the match set is taken from the cache.
    pub open spec fn listed(self, listing: Option<Seq<EntryView>>) -> State {
        if !self.awaiting {
            self
        } else {
            let cache = match listing {
                Some(entries) => directory_names(entries),
                None => Seq::empty(),
            };
            State {
                cache,
                source: MatchSource::Directory,
                matches: matching_entries(cache, token(self.text)),
                awaiting: false,
                ..self
            }
        }
    }

    /// What committing the command line asks for. Off screen there is no
    /// command line to commit.
    pub open spec fn action(self) -> ActionView {
        if self.visible {
            dispatch_of(self.text, self.commands, self.path())
        } else {
            ActionView::Nothing
        }
    }

    /// The state after a commit: off screen and clear.
    pub open spec fn committed(self) -> State {
        State { visible: false, ..self.cleared() }
    }

    /// The state after an event.
    pub open spec fn next(self, event: Event) -> State {
        match event {
            Event::Show => self.shown(),
            Event::Edit(text) => self.edited(text),
            Event::Listed(listing) => self.listed(listing),
            Event::Commit => self.committed(),
            Event::Reset => self.cleared(),
        }
    }
}

} // verus!
