//! What a directory listing hands to the overlay.

use vstd::prelude::*;

verus! {

/// One entry of a directory listing.
#[derive(Clone, Debug, PartialEq, Eq)]
pub struct ListingEntry {
    pub name: String,
    pub is_dir: bool,
}

/// What a `ListingEntry` stands for.
pub struct EntryView {
    pub name: Seq<char>,
    pub is_dir: bool,
}

impl View for ListingEntry {
    type V = EntryView;

    open spec fn view(&self) -> EntryView {
        EntryView { name: self.name@, is_dir: self.is_dir }
    }
}

impl DeepView for ListingEntry {
    type V = EntryView;

    open spec fn deep_view(&self) -> EntryView {
        self@
    }
}

/// The names of the entries that are directories, in the listing's order.
pub open spec fn directory_names(entries: Seq<EntryView>) -> Seq<Seq<char>>
    decreases entries.len(),
{
    if entries.len() == 0 {
        Seq::empty()
    } else {
        let before = directory_names(entries.drop_last());
        if entries.last().is_dir {
            before.push(entries.last().name)
        } else {
            before
        }
    }
}

/// No more names are kept than there are entries.
pub proof fn lemma_directory_names_len(entries: Seq<EntryView>)
    ensures
        directory_names(entries).len() <= entries.len(),
    decreases entries.len(),
{
    if entries.len() > 0 {
        lemma_directory_names_len(entries.drop_last());
    }
}

/// The names of the directories among `entries`.
pub fn directories(entries: &Vec<ListingEntry>) -> (names: Vec<String>)
    ensures
        names.deep_view() == directory_names(entries.deep_view()),
{
    let n: usize = entries.len();
    let mut names: Vec<String> = Vec::new();
    let mut k: usize = 0;
    while k < n
        invariant
            n == entries@.len(),
            k <= n,
            names.deep_view() == directory_names(entries.deep_view().take(k as int)),
        decreases n - k,
    {
        assert(entries.deep_view().take(k + 1).drop_last() =~= entries.deep_view().take(k as int));
        if entries[k].is_dir {
            let name = entries[k].name.clone();
            names.push(name);
        }
        k += 1;
    }
    assert(entries.deep_view().take(n as int) =~= entries.deep_view());
    names
}

} // verus!
