//! The bookmark table and the command table, and the text form they are kept in.
//!
//! Both tables are written in lines that end in a carriage return and a line
//! feed. The bookmark table has one line for each bookmark: the alias, a
//! space, and the path. The command table has one block for each command,
//! with an empty line between two blocks. A block's first line holds the
//! display name, the trigger character and the program's path, with a space
//! after each of the first two; each further line is one argument.

use crate::split::{after_first, before_first, cut_str, split, split_str};
use vstd::prelude::*;

verus! {

/// A named shortcut to a place in the file system.
#[derive(Clone, Debug, PartialEq, Eq)]
pub struct Bookmark {
    pub alias: String,
    pub path: String,
}

/// What a `Bookmark` stands for.
pub struct BookmarkView {
    pub alias: Seq<char>,
    pub path: Seq<char>,
}

impl View for Bookmark {
    type V = BookmarkView;

    open spec fn view(&self) -> BookmarkView {
        BookmarkView { alias: self.alias@, path: self.path@ }
    }
}

impl DeepView for Bookmark {
    type V = BookmarkView;

    open spec fn deep_view(&self) -> BookmarkView {
        self@
    }
}

/// A program that a trigger character starts, and the arguments it is given.
#[derive(Clone, Debug, PartialEq, Eq)]
pub struct CommandSpec {
    pub trigger: char,
    pub display_name: String,
    pub program_path: String,
    pub arg_template: Vec<String>,
}

/// What a `CommandSpec` stands for.
pub struct CommandView {
    pub trigger: char,
    pub display_name: Seq<char>,
    pub program_path: Seq<char>,
    pub arg_template: Seq<Seq<char>>,
}

impl View for CommandSpec {
    type V = CommandView;

    open spec fn view(&self) -> CommandView {
        CommandView {
            trigger: self.trigger,
            display_name: self.display_name@,
            program_path: self.program_path@,
            arg_template: self.arg_template.deep_view(),
        }
    }
}

impl DeepView for CommandSpec {
    type V = CommandView;

    open spec fn deep_view(&self) -> CommandView {
        self@
    }
}

/// What is wrong with a block of the command table.
#[derive(Clone, Copy, Debug, PartialEq, Eq, Structural)]
pub enum Flaw {
    /// The first line has no space, so no trigger follows the display name.
    MissingTrigger,
    /// What stands in the trigger's place is not exactly one character.
    BadTrigger,
}

/// The first block of the command table that cannot be read, counted from 0.
#[derive(Clone, Copy, Debug, PartialEq, Eq, Structural)]
pub struct LoadError {
    pub block: usize,
    pub flaw: Flaw,
}

/// The bookmark written in one line.
pub open spec fn bookmark_of_line(line: Seq<char>) -> BookmarkView {
    BookmarkView {
        alias: before_first(line, " "@),
        path: match after_first(line, " "@) {
            Some(path) => path,
            None => Seq::empty(),
        },
    }
}

/// The bookmarks written in `text`, one for each of its lines.
pub open spec fn bookmarks_of(text: Seq<char>) -> Seq<BookmarkView> {
    let lines = split(text, "\r\n"@);
    Seq::new(lines.len(), |i: int| bookmark_of_line(lines[i]))
}

/// The command written in one block, or what is wrong with the block.
pub open spec fn command_of_block(block: Seq<char>) -> Result<CommandView, Flaw> {
    let lines = split(block, "\r\n"@);
    let header = lines[0];
    match after_first(header, " "@) {
        None => Err(Flaw::MissingTrigger),
        Some(rest) => {
            let trigger = before_first(rest, " "@);
            if trigger.len() != 1 {
                Err(Flaw::BadTrigger)
            } else {
                Ok(
                    CommandView {
                        trigger: trigger[0],
                        display_name: before_first(header, " "@),
                        program_path: match after_first(rest, " "@) {
                            Some(program) => program,
                            None => Seq::empty(),
                        },
                        arg_template: lines.skip(1),
                    },
                )
            }
        },
    }
}

/// The blocks of a command table.
pub open spec fn blocks_of(text: Seq<char>) -> Seq<Seq<char>> {
    split(text, "\r\n\r\n"@)
}

/// Reads one line of the bookmark table.
pub fn parse_bookmark(line: &str) -> (bookmark: Bookmark)
    ensures
        bookmark@ == bookmark_of_line(line@),
{
    let (alias, rest) = cut_str(line, " ");
    let path = match rest {
        Some(path) => path,
        None => String::new(),
    };
    Bookmark { alias, path }
}

/// Reads the bookmark table. Every text is a bookmark table.
pub fn parse_bookmarks(text: &str) -> (table: Vec<Bookmark>)
    ensures
        table.deep_view() == bookmarks_of(text@),
{
    let lines = split_str(text, "\r\n");
    let n: usize = lines.len();
    let mut table: Vec<Bookmark> = Vec::new();
    let mut k: usize = 0;
    while k < n
        invariant
            n == lines@.len(),
            k <= n,
            lines.deep_view() == split(text@, "\r\n"@),
            table.deep_view() == bookmarks_of(text@).take(k as int),
        decreases n - k,
    {
        let ghost done = table.deep_view();
        let bookmark = parse_bookmark(lines[k].as_str());
        table.push(bookmark);
        assert(table.deep_view() =~= done.push(bookmark@));
        k += 1;
    }
    table
}

/// Reads one block of the command table.
pub fn parse_command(block: &str) -> (r: Result<CommandSpec, Flaw>)
    ensures
        match r {
            Ok(command) => command_of_block(block@) == Ok::<CommandView, Flaw>(command@),
            Err(flaw) => command_of_block(block@) == Err::<CommandView, Flaw>(flaw),
        },
{
    let mut lines = split_str(block, "\r\n");
    let ghost all = lines.deep_view();
    let header = lines.remove(0);
    assert(lines.deep_view() =~= all.skip(1));
    let (display_name, rest) = cut_str(header.as_str(), " ");
    match rest {
        None => Err(Flaw::MissingTrigger),
        Some(rest) => {
            let (token, program) = cut_str(rest.as_str(), " ");
            if token.as_str().unicode_len() != 1 {
                Err(Flaw::BadTrigger)
            } else {
                let trigger = token.as_str().get_char(0);
                let program_path = match program {
                    Some(program) => program,
                    None => String::new(),
                };
                Ok(CommandSpec { trigger, display_name, program_path, arg_template: lines })
            }
        },
    }
}

/// Reads the command table: the command of each block, or the first block
/// that cannot be read.
pub fn parse_commands(text: &str) -> (r: Result<Vec<CommandSpec>, LoadError>)
    ensures
        match r {
            Ok(table) => {
                &&& table.deep_view().len() == blocks_of(text@).len()
                &&& forall|i: int|
                    0 <= i < table.deep_view().len() ==> command_of_block(
                        #[trigger] blocks_of(text@)[i],
                    ) == Ok::<CommandView, Flaw>(table.deep_view()[i])
            },
            Err(e) => {
                &&& e.block < blocks_of(text@).len()
                &&& command_of_block(blocks_of(text@)[e.block as int]) == Err::<CommandView, Flaw>(
                    e.flaw,
                )
                &&& forall|i: int|
                    0 <= i < e.block ==> command_of_block(#[trigger] blocks_of(text@)[i]) is Ok
            },
        },
{
    let blocks = split_str(text, "\r\n\r\n");
    let n: usize = blocks.len();
    let mut table: Vec<CommandSpec> = Vec::new();
    let mut k: usize = 0;
    while k < n
        invariant
            n == blocks@.len(),
            k <= n,
            blocks.deep_view() == blocks_of(text@),
            table.deep_view().len() == k,
            forall|i: int|
                0 <= i < k ==> command_of_block(#[trigger] blocks_of(text@)[i]) == Ok::<
                    CommandView,
                    Flaw,
                >(table.deep_view()[i]),
        decreases n - k,
    {
        match parse_command(blocks[k].as_str()) {
            Ok(command) => {
                table.push(command);
            },
            Err(flaw) => {
                return Err(LoadError { block: k, flaw });
            },
        }
        k += 1;
    }
    Ok(table)
}

} // verus!
