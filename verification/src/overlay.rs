//! The overlay itself: the state record and the steps that change it.

use crate::dispatch::{dispatch, label, Action};
use crate::listing::{directories, EntryView, ListingEntry};
use crate::matching::{filter_bookmarks, filter_entries, MatchSource};
use crate::model::{segments, token, State};
use crate::pattern::contains;
use crate::resolve::resolve_path;
use crate::split::{join, join_strs, lemma_split_nonempty, split_str};
use crate::tables::{Bookmark, CommandSpec};
use vstd::prelude::*;

verus! {

/// What a listing that may have failed stands for.
pub open spec fn listing_of(listing: Option<Vec<ListingEntry>>) -> Option<Seq<EntryView>> {
    match listing {
        Some(entries) => Some(entries.deep_view()),
        None => None,
    }
}

/// A quick-launch overlay: the two tables, the command line, and how far and
/// where the user has browsed.
pub struct Overlay {
    bookmarks: Vec<Bookmark>,
    commands: Vec<CommandSpec>,
    visible: bool,
    text: String,
    stack: Vec<String>,
    cache: Vec<String>,
    source: MatchSource,
    matches: Vec<usize>,
    awaiting: bool,
}

impl View for Overlay {
    type V = State;

    closed spec fn view(&self) -> State {
        State {
            bookmarks: self.bookmarks.deep_view(),
            commands: self.commands.deep_view(),
            visible: self.visible,
            text: self.text@,
            stack: self.stack.deep_view(),
            cache: self.cache.deep_view(),
            source: self.source,
            matches: self.matches@,
            awaiting: self.awaiting,
        }
    }
}

impl Overlay {
    #[verifier::type_invariant]
    spec fn well_formed(self) -> bool {
        self@.valid()
    }

    /// An overlay over the two tables, on screen, with nothing typed.
    pub fn new(bookmarks: Vec<Bookmark>, commands: Vec<CommandSpec>) -> (overlay: Overlay)
        ensures
            overlay@ == State::initial(bookmarks.deep_view(), commands.deep_view()),
    {
        assert(bookmarks.len() <= usize::MAX);
        let overlay = Overlay {
            bookmarks,
            commands,
            visible: true,
            text: String::new(),
            stack: Vec::new(),
            cache: Vec::new(),
            source: MatchSource::Bookmarks,
            matches: Vec::new(),
            awaiting: false,
        };
        assert(overlay.stack.deep_view() =~= Seq::<Seq<char>>::empty());
        overlay
    }

    /// The bookmark table.
    pub fn bookmarks(&self) -> (table: &Vec<Bookmark>)
        ensures
            table.deep_view() == self@.bookmarks,
    {
        &self.bookmarks
    }

    /// The command table.
    pub fn commands(&self) -> (table: &Vec<CommandSpec>)
        ensures
            table.deep_view() == self@.commands,
    {
        &self.commands
    }

    /// Whether the overlay is on screen.
    pub fn is_visible(&self) -> (visible: bool)
        ensures
            visible == self@.visible,
    {
        self.visible
    }

    /// The command line as the overlay last took it in.
    pub fn text(&self) -> (text: &String)
        ensures
            text@ == self@.text,
    {
        &self.text
    }

    /// The breadcrumbs, outermost first.
    pub fn stack(&self) -> (stack: &Vec<String>)
        ensures
            stack.deep_view() == self@.stack,
    {
        &self.stack
    }

    /// The directories found in the directory being browsed.
    pub fn cache(&self) -> (cache: &Vec<String>)
        ensures
            cache.deep_view() == self@.cache,
    {
        &self.cache
    }

    /// The collection that the matches count into.
    pub fn source(&self) -> (source: MatchSource)
        ensures
            source == self@.source,
    {
        self.source
    }

    /// The candidates for the token being typed; the first is the selected one.
    pub fn matches(&self) -> (matches: &Vec<usize>)
        ensures
            matches@ == self@.matches,
            self@.valid(),
    {
        proof {
            use_type_invariant(self);
        }
        &self.matches
    }

    /// Whether a listing has been asked for and not yet handed in.
    pub fn awaits_listing(&self) -> (awaiting: bool)
        ensures
            awaiting == self@.awaiting,
    {
        self.awaiting
    }

    /// Drops everything typed, browsed, cached and matched.
    pub fn reset(&mut self)
        ensures
            final(self)@ == old(self)@.cleared(),
    {
        proof {
            use_type_invariant(&*self);
        }
        self.matches = Vec::new();
        self.awaiting = false;
        self.source = MatchSource::Bookmarks;
        self.cache = Vec::new();
        self.stack = Vec::new();
        self.text = String::new();
        assert(self.stack.deep_view() =~= Seq::<Seq<char>>::empty());
    }

    /// Puts the overlay on screen. On screen already, nothing changes.
    pub fn show(&mut self)
        ensures
            final(self)@ == old(self)@.shown(),
    {
        proof {
            use_type_invariant(&*self);
        }
        self.visible = true;
    }

    /// The name behind the match at place `k`: what becomes a breadcrumb when
    /// the user descends into it.
    fn match_name(&self, k: usize) -> (name: &String)
        requires
            k < self@.matches.len(),
        ensures
            name@ == self@.name_of_match(k as int),
    {
        proof {
            use_type_invariant(self);
        }
        let place: usize = self.matches[k];
        match self.source {
            MatchSource::Bookmarks => {
                &self.bookmarks[place].path
            },
            MatchSource::Directory => {
                &self.cache[place]
            },
        }
    }

    /// The path that the breadcrumbs and the selected match stand for.
    pub fn get_path(&self) -> (path: String)
        ensures
            path@ == self@.path(),
            !contains(path@, "\\\\"@),
            self@.valid(),
    {
        proof {
            use_type_invariant(self);
        }
        if self.matches.len() > 0 {
            let name = self.match_name(0);
            resolve_path(&self.stack, Some(name.as_str()))
        } else {
            resolve_path(&self.stack, None)
        }
    }

    /// What the overlay shows for the trigger character.
    pub fn command_label(&self) -> (shown: String)
        ensures
            shown@ == self@.command_label(),
    {
        label(self.text.as_str(), &self.commands)
    }

    /// What the overlay shows for each match, in the order of the match set.
    pub fn match_labels(&self) -> (labels: Vec<String>)
        ensures
            labels.deep_view() == Seq::new(
                self@.matches.len(),
                |k: int| self@.label_of_match(k),
            ),
    {
        proof {
            use_type_invariant(self);
        }
        let ghost all = Seq::new(self@.matches.len(), |k: int| self@.label_of_match(k));
        let n: usize = self.matches.len();
        let mut labels: Vec<String> = Vec::new();
        let mut k: usize = 0;
        while k < n
            invariant
                n == self.matches@.len(),
                k <= n,
                self@.valid(),
                all == Seq::new(self@.matches.len(), |k: int| self@.label_of_match(k)),
                labels.deep_view() == all.take(k as int),
            decreases n - k,
        {
            let ghost done = labels.deep_view();
            let place: usize = self.matches[k];
            let shown = match self.source {
                MatchSource::Bookmarks => {
                    let bookmark = &self.bookmarks[place];
                    let mut shown = bookmark.alias.clone();
                    shown.append(" - ");
                    shown.append(bookmark.path.as_str());
                    shown
                },
                MatchSource::Directory => {
                    self.cache[place].clone()
                },
            };
            labels.push(shown);
            assert(labels.deep_view() =~= done.push(shown@));
            k += 1;
        }
        labels
    }

    /// Drops the cache and the matches, and notes that a listing is wanted.
    fn relist(&mut self)
        requires
            old(self)@.visible,
            old(self)@.stack.len() > 0,
        ensures
            final(self)@ == old(self)@.relisting(),
    {
        proof {
            use_type_invariant(&*self);
        }
        self.matches = Vec::new();
        self.cache = Vec::new();
        self.source = MatchSource::Directory;
        self.awaiting = true;
        assert(self.cache.deep_view() =~= Seq::<Seq<char>>::empty());
    }

    /// Drops the cache and the matches before the depth changes.
    fn forget(&mut self)
        requires
            old(self)@.visible,
        ensures
            final(self)@ == (State {
                cache: Seq::empty(),
                source: MatchSource::Bookmarks,
                matches: Seq::empty(),
                awaiting: false,
                ..old(self)@
            }),
    {
        proof {
            use_type_invariant(&*self);
        }
        self.matches = Vec::new();
        self.awaiting = false;
        self.source = MatchSource::Bookmarks;
        self.cache = Vec::new();
        assert(self.cache.deep_view() =~= Seq::<Seq<char>>::empty());
    }

    /// Takes the match set anew for the token `wanted`, from the cache if
    /// `deep`, else from the bookmarks.
    fn refilter(&mut self, deep: bool, wanted: &str)
        requires
            old(self)@.visible,
            deep == (segments(old(self)@.text).len() > 1),
            deep ==> old(self)@.stack.len() > 0,
            wanted@ == token(old(self)@.text),
        ensures
            final(self)@ == old(self)@.refiltered(),
    {
        proof {
            use_type_invariant(&*self);
        }
        self.matches = Vec::new();
        self.awaiting = false;
        if deep {
            self.source = MatchSource::Directory;
            self.matches = filter_entries(&self.cache, wanted);
        } else {
            self.source = MatchSource::Bookmarks;
            self.matches = filter_bookmarks(&self.bookmarks, wanted);
        }
    }

    /// Takes in the command line as it now reads, and says which directory is
    /// to be listed, if any. The listing is handed in with `listed`.
    pub fn edit(&mut self, text: &str) -> (wanted: Option<String>)
        ensures
            final(self)@ == old(self)@.edited(text@),
            wanted is Some <==> final(self)@.awaiting,
            wanted matches Some(directory) ==> directory@ == join(final(self)@.stack, "\\"@),
    {
        proof {
            use_type_invariant(&*self);
        }
        if !self.visible {
            return None;
        }
        let n: usize = text.unicode_len();
        if n == 0 {
            self.text = text.to_owned();
            self.awaiting = false;
            return None;
        }
        let parts = split_str(text.substring_char(1, n), " ");
        proof {
            lemma_split_nonempty(text@.skip(1), " "@);
        }
        let count: usize = parts.len();
        let depth: usize = self.stack.len();
        let wanted = parts[count - 1].as_str();
        let ghost before = self.stack.deep_view();
        if count > depth && count - depth >= 2 {
            if self.matches.len() == 0 {
                self.reset();
                return None;
            }
            let name = self.match_name(0).clone();
            self.forget();
            let mut stack: Vec<String> = Vec::new();
            core::mem::swap(&mut self.stack, &mut stack);
            stack.push(name);
            self.stack = stack;
            assert(self.stack.deep_view() =~= before.push(name@));
            self.text = text.to_owned();
            self.relist();
            Some(join_strs(&self.stack, "\\"))
        } else if count <= depth {
            self.forget();
            let mut stack: Vec<String> = Vec::new();
            core::mem::swap(&mut self.stack, &mut stack);
            stack.pop();
            self.stack = stack;
            assert(self.stack.deep_view() =~= before.drop_last());
            self.text = text.to_owned();
            if count > 1 {
                self.relist();
                Some(join_strs(&self.stack, "\\"))
            } else {
                self.refilter(false, wanted);
                None
            }
        } else {
            self.text = text.to_owned();
            self.refilter(count > 1, wanted);
            None
        }
    }

    /// The token being typed.
    fn current_token(&self) -> (wanted: String)
        ensures
            wanted@ == token(self@.text),
    {
        let n: usize = self.text.as_str().unicode_len();
        if n == 0 {
            return String::new();
        }
        let mut parts = split_str(self.text.as_str().substring_char(1, n), " ");
        proof {
            lemma_split_nonempty(self.text@.skip(1), " "@);
        }
        match parts.pop() {
            Some(last) => last,
            None => String::new(),
        }
    }

    /// Takes in the listing that `edit` asked for, or `None` where the
    /// directory could not be listed. A listing that was not asked for is
    /// dropped.
    pub fn listed(&mut self, listing: Option<Vec<ListingEntry>>)
        ensures
            final(self)@ == old(self)@.listed(listing_of(listing)),
    {
        proof {
            use_type_invariant(&*self);
        }
        if !self.awaiting {
            return ;
        }
        let cache = match listing {
            Some(entries) => directories(&entries),
            None => Vec::new(),
        };
        assert(listing is None ==> cache.deep_view() =~= Seq::<Seq<char>>::empty());
        let wanted = self.current_token();
        let found = filter_entries(&cache, wanted.as_str());
        self.matches = Vec::new();
        self.cache = cache;
        self.source = MatchSource::Directory;
        self.matches = found;
        self.awaiting = false;
    }

    /// Commits the command line: says what it asks for, and leaves the
    /// overlay off screen and clear.
    pub fn commit(&mut self) -> (action: Action)
        ensures
            action@ == old(self)@.action(),
            final(self)@ == old(self)@.committed(),
    {
        proof {
            use_type_invariant(&*self);
        }
        if !self.visible {
            assert(self@.text =~= Seq::<char>::empty());
            assert(self@.stack =~= Seq::<Seq<char>>::empty());
            assert(self@.cache =~= Seq::<Seq<char>>::empty());
            assert(self@.matches =~= Seq::<usize>::empty());
            return Action::Nothing;
        }
        let path = self.get_path();
        let action = dispatch(self.text.as_str(), &self.commands, path.as_str());
        self.reset();
        self.visible = false;
        action
    }
}

} // verus!
