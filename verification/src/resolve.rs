//! From the breadcrumb trail and the selected match to one path.

use crate::pattern::{contains, occurs_at};
use crate::split::{join, join_strs};
use crate::squeeze::{
    lemma_pair_occurs, lemma_squeezed_has_no_pair, lemma_squeezed_keeps_text_without_pair,
    pair_at, squeeze_str, squeezed,
};
use vstd::prelude::*;

verus! {

/// What a string that may be absent stands for.
pub open spec fn text_of(s: Option<&str>) -> Option<Seq<char>> {
    match s {
        Some(s) => Some(s@),
        None => None,
    }
}

/// The breadcrumbs with a separator after each, followed by the selected
/// name where there is one. With no breadcrumbs the name stands alone.
pub open spec fn raw_path(stack: Seq<Seq<char>>, top: Option<Seq<char>>) -> Seq<char> {
    let trail = if stack.len() > 0 {
        join(stack, "\\"@) + "\\"@
    } else {
        Seq::empty()
    };
    match top {
        Some(name) => trail + name,
        None => trail,
    }
}

/// The path that the breadcrumbs and the selected name stand for: the raw
/// path with every run of separators made a single separator.
pub open spec fn resolved_path(stack: Seq<Seq<char>>, top: Option<Seq<char>>) -> Seq<char> {
    squeezed(raw_path(stack, top), '\\')
}

/// With no breadcrumb and no match the path is empty.
pub proof fn lemma_nothing_resolves_to_nothing()
    ensures
        resolved_path(Seq::empty(), None) == Seq::<char>::empty(),
{
}

/// A resolved path never holds a doubled separator, whatever the breadcrumbs
/// and the match.
pub proof fn lemma_resolved_path_has_no_doubled_separator(
    stack: Seq<Seq<char>>,
    top: Option<Seq<char>>,
)
    ensures
        !contains(resolved_path(stack, top), "\\\\"@),
{
    reveal_strlit("\\\\");
    let out = resolved_path(stack, top);
    assert("\\\\"@ =~= seq!['\\', '\\']);
    lemma_squeezed_has_no_pair(raw_path(stack, top), '\\');
    assert forall|at: int| !occurs_at(out, "\\\\"@, at) by {
        lemma_pair_occurs(out, '\\', at);
    }
}

/// A raw path without a doubled separator is the resolved path.
pub proof fn lemma_clean_path_is_kept(stack: Seq<Seq<char>>, top: Option<Seq<char>>)
    requires
        !contains(raw_path(stack, top), "\\\\"@),
    ensures
        resolved_path(stack, top) == raw_path(stack, top),
{
    reveal_strlit("\\\\");
    let raw = raw_path(stack, top);
    assert("\\\\"@ =~= seq!['\\', '\\']);
    assert forall|at: int| !pair_at(raw, '\\', at) by {
        lemma_pair_occurs(raw, '\\', at);
    }
    lemma_squeezed_keeps_text_without_pair(raw, '\\');
}

/// Resolves the breadcrumbs and the selected name to one path.
pub fn resolve_path(stack: &Vec<String>, top: Option<&str>) -> (path: String)
    ensures
        path@ == resolved_path(stack.deep_view(), text_of(top)),
        !contains(path@, "\\\\"@),
{
    let mut raw = String::new();
    if stack.len() > 0 {
        raw = join_strs(stack, "\\");
        raw.append("\\");
    }
    match top {
        Some(name) => {
            raw.append(name);
        },
        None => {},
    }
    proof {
        lemma_resolved_path_has_no_doubled_separator(stack.deep_view(), text_of(top));
    }
    squeeze_str(raw.as_str(), '\\')
}

} // verus!
