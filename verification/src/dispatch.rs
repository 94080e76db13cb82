//! What a committed command line asks for.

use crate::replace::{replace_first, replace_first_str};
use crate::tables::{CommandSpec, CommandView};
use vstd::prelude::*;

verus! {

/// What the overlay's host is asked to do when a command line is committed.
#[derive(Clone, Debug, PartialEq, Eq)]
pub enum Action {
    /// The command line was empty: nothing is asked for.
    Nothing,
    /// The reserved trigger `q`: close the overlay, start nothing.
    Close,
    /// Start `program` with `args`.
    Launch { program: String, args: Vec<String> },
    /// No command has the trigger: nothing is started.
    Unknown,
}

/// What an `Action` stands for.
pub enum ActionView {
    Nothing,
    Close,
    Launch { program: Seq<char>, args: Seq<Seq<char>> },
    Unknown,
}

impl View for Action {
    type V = ActionView;

    open spec fn view(&self) -> ActionView {
        match self {
            Action::Nothing => ActionView::Nothing,
            Action::Close => ActionView::Close,
            Action::Launch { program, args } => ActionView::Launch {
                program: program@,
                args: args.deep_view(),
            },
            Action::Unknown => ActionView::Unknown,
        }
    }
}

/// Some command of the table has the trigger.
pub open spec fn has_command(table: Seq<CommandView>, trigger: char) -> bool {
    exists|i: int| 0 <= i < table.len() && table[i].trigger == trigger
}

/// `at` is the place of the first command of the table that has the trigger.
pub open spec fn is_first_command(table: Seq<CommandView>, trigger: char, at: int) -> bool {
    &&& 0 <= at < table.len()
    &&& table[at].trigger == trigger
    &&& forall|before: int| 0 <= before < at ==> table[before].trigger != trigger
}

/// The place of the first command of the table that has the trigger;
/// meaningful only where `has_command(table, trigger)`.
pub open spec fn command_index(table: Seq<CommandView>, trigger: char) -> int {
    choose|at: int| is_first_command(table, trigger, at)
}

/// One template argument with the path in the place of the first `PATH`.
pub open spec fn filled(argument: Seq<char>, path: Seq<char>) -> Seq<char> {
    replace_first(argument, "PATH"@, path)
}

/// The template's arguments, each filled on its own.
pub open spec fn filled_all(template: Seq<Seq<char>>, path: Seq<char>) -> Seq<Seq<char>> {
    Seq::new(template.len(), |i: int| filled(template[i], path))
}

/// What committing `text` asks for, with `path` as the resolved path.
pub open spec fn dispatch_of(text: Seq<char>, table: Seq<CommandView>, path: Seq<char>)
    -> ActionView {
    if text.len() == 0 {
        ActionView::Nothing
    } else if text[0] == 'q' {
        ActionView::Close
    } else if has_command(table, text[0]) {
        let command = table[command_index(table, text[0])];
        ActionView::Launch {
            program: command.program_path,
            args: filled_all(command.arg_template, path),
        }
    } else {
        ActionView::Unknown
    }
}

/// What the overlay shows for the trigger of `text`: the display name of the
/// command it selects, else `---` for no trigger, `QUIT` for `q`, and
/// `NOT FOUND` for any other.
pub open spec fn label_of(text: Seq<char>, table: Seq<CommandView>) -> Seq<char> {
    if text.len() == 0 {
        "---"@
    } else if has_command(table, text[0]) {
        table[command_index(table, text[0])].display_name
    } else if text[0] == 'q' {
        "QUIT"@
    } else {
        "NOT FOUND"@
    }
}

/// The first command that has the trigger is the one `command_index` names.
pub proof fn lemma_first_command_is_indexed(table: Seq<CommandView>, trigger: char, at: int)
    requires
        is_first_command(table, trigger, at),
    ensures
        has_command(table, trigger),
        command_index(table, trigger) == at,
{
}

/// The first command of the table that has the trigger.
pub fn lookup(table: &Vec<CommandSpec>, trigger: char) -> (found: Option<usize>)
    ensures
        found is Some <==> has_command(table.deep_view(), trigger),
        found matches Some(at) ==> at == command_index(table.deep_view(), trigger)
            && is_first_command(table.deep_view(), trigger, at as int),
{
    let n: usize = table.len();
    let mut k: usize = 0;
    while k < n
        invariant
            n == table@.len(),
            k <= n,
            forall|before: int| 0 <= before < k ==> table.deep_view()[before].trigger != trigger,
        decreases n - k,
    {
        if table[k].trigger == trigger {
            proof {
                lemma_first_command_is_indexed(table.deep_view(), trigger, k as int);
            }
            return Some(k);
        }
        k += 1;
    }
    None
}

/// Fills each argument of a template with the path.
pub fn fill(template: &Vec<String>, path: &str) -> (args: Vec<String>)
    ensures
        args.deep_view() == filled_all(template.deep_view(), path@),
{
    let n: usize = template.len();
    let mut args: Vec<String> = Vec::new();
    let mut k: usize = 0;
    while k < n
        invariant
            n == template@.len(),
            k <= n,
            args.deep_view() == filled_all(template.deep_view(), path@).take(k as int),
        decreases n - k,
    {
        let ghost done = args.deep_view();
        let argument = replace_first_str(template[k].as_str(), "PATH", path);
        args.push(argument);
        assert(args.deep_view() =~= done.push(argument@));
        k += 1;
    }
    args
}

/// What committing `text` asks for, with `path` as the resolved path.
pub fn dispatch(text: &str, table: &Vec<CommandSpec>, path: &str) -> (action: Action)
    ensures
        action@ == dispatch_of(text@, table.deep_view(), path@),
{
    if text.unicode_len() == 0 {
        return Action::Nothing;
    }
    let trigger = text.get_char(0);
    if trigger == 'q' {
        return Action::Close;
    }
    match lookup(table, trigger) {
        Some(at) => {
            let command = &table[at];
            Action::Launch {
                program: command.program_path.clone(),
                args: fill(&command.arg_template, path),
            }
        },
        None => Action::Unknown,
    }
}

/// What the overlay shows for the trigger of `text`.
pub fn label(text: &str, table: &Vec<CommandSpec>) -> (shown: String)
    ensures
        shown@ == label_of(text@, table.deep_view()),
{
    if text.unicode_len() == 0 {
        return "---".to_owned();
    }
    let trigger = text.get_char(0);
    match lookup(table, trigger) {
        Some(at) => {
            table[at].display_name.clone()
        },
        None => {
            if trigger == 'q' {
                "QUIT".to_owned()
            } else {
                "NOT FOUND".to_owned()
            }
        },
    }
}

} // verus!
