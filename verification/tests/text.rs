use splight::chars::{chars_of, lowered_chars_of, to_lower};
use splight::dispatch::{dispatch, fill, label, lookup};
use splight::listing::directories;
use splight::matching::{filter_bookmarks, filter_entries};
use splight::pattern::{find, find_from, occurs_here};
use splight::replace::replace_first_str;
use splight::resolve::resolve_path;
use splight::split::{cut_str, join_strs, split_str};
use splight::squeeze::squeeze_str;
use splight::{Action, Bookmark, CommandSpec, ListingEntry};

fn strings(items: &[&str]) -> Vec<String> {
    items.iter().map(|s| s.to_string()).collect()
}

fn chars(text: &str) -> Vec<char> {
    text.chars().collect()
}

#[test]
fn lower_folds_ascii_only() {
    assert_eq!(to_lower('A'), 'a');
    assert_eq!(to_lower('Z'), 'z');
    assert_eq!(to_lower('m'), 'm');
    assert_eq!(to_lower('@'), '@');
    assert_eq!(to_lower('['), '[');
    assert_eq!(to_lower('É'), 'É');
    assert_eq!(lowered_chars_of("DoCs É"), chars("docs É"));
    assert_eq!(chars_of("aé\\"), vec!['a', 'é', '\\']);
}

#[test]
fn find_gives_leftmost_occurrence() {
    assert_eq!(find(&chars("abcabc"), &chars("bc")), Some(1));
    assert_eq!(find(&chars("abcabc"), &chars("cb")), None);
    assert_eq!(find(&chars("abc"), &chars("")), Some(0));
    assert_eq!(find(&chars(""), &chars("")), Some(0));
    assert_eq!(find(&chars(""), &chars("a")), None);
    assert_eq!(find(&chars("ab"), &chars("abc")), None);
    assert_eq!(find_from(&chars("abcabc"), &chars("bc"), 2), Some(4));
    assert_eq!(find_from(&chars("abcabc"), &chars("bc"), 5), None);
    assert_eq!(find_from(&chars("abc"), &chars(""), 3), Some(3));
    assert_eq!(find_from(&chars("abc"), &chars(""), 4), None);
    assert!(occurs_here(&chars("abc"), &chars("bc"), 1));
    assert!(!occurs_here(&chars("abc"), &chars("bc"), 2));
    assert!(!occurs_here(&chars("abc"), &chars("bc"), 7));
}

#[test]
fn split_cuts_at_each_separator() {
    assert_eq!(split_str("a b c", " "), strings(&["a", "b", "c"]));
    assert_eq!(split_str("", " "), strings(&[""]));
    assert_eq!(split_str(" ", " "), strings(&["", ""]));
    assert_eq!(split_str("a  b ", " "), strings(&["a", "", "b", ""]));
    assert_eq!(split_str("one\r\ntwo\r\n\r\nthree", "\r\n\r\n"), strings(&["one\r\ntwo", "three"]));
    assert_eq!(split_str("aaa", "aa"), strings(&["", "a"]));
    assert_eq!(split_str("abc", ""), strings(&["abc"]));
    assert_eq!(split_str("é é", " "), strings(&["é", "é"]));
}

#[test]
fn join_puts_separator_between() {
    assert_eq!(join_strs(&strings(&[]), "\\"), "");
    assert_eq!(join_strs(&strings(&["a"]), "\\"), "a");
    assert_eq!(join_strs(&strings(&["a", "b", "c"]), "\\"), "a\\b\\c");
    assert_eq!(join_strs(&strings(&["", ""]), "--"), "--");
}

#[test]
fn cut_splits_once() {
    assert_eq!(cut_str("a b c", " "), ("a".to_string(), Some("b c".to_string())));
    assert_eq!(cut_str("abc", " "), ("abc".to_string(), None));
    assert_eq!(cut_str("abc ", " "), ("abc".to_string(), Some(String::new())));
}

#[test]
fn squeeze_makes_each_run_single() {
    assert_eq!(squeeze_str("", '\\'), "");
    assert_eq!(squeeze_str("abc", '\\'), "abc");
    assert_eq!(squeeze_str("a\\b", '\\'), "a\\b");
    assert_eq!(squeeze_str("a\\\\b", '\\'), "a\\b");
    assert_eq!(squeeze_str("a\\\\\\b", '\\'), "a\\b");
    assert_eq!(squeeze_str("a\\\\\\\\b", '\\'), "a\\b");
    assert_eq!(squeeze_str("\\\\a\\\\\\b\\c\\\\", '\\'), "\\a\\b\\c\\");
    assert_eq!(squeeze_str("\\\\\\", '\\'), "\\");
    assert_eq!(squeeze_str("aab\\\\bb", 'b'), "aab\\\\b");
    assert_eq!(squeeze_str("éé\\\\éé", 'é'), "é\\\\é");
}

#[test]
fn placeholder_substitution() {
    assert_eq!(replace_first_str("open PATH here", "PATH", "C:\\data"), "open C:\\data here");
    assert_eq!(replace_first_str("PATH PATH", "PATH", "C:\\data"), "C:\\data PATH");
    assert_eq!(replace_first_str("no placeholder", "PATH", "C:\\data"), "no placeholder");
    assert_eq!(replace_first_str("path", "PATH", "C:\\data"), "path");
    assert_eq!(
        fill(&strings(&["open PATH here", "-x", "PATHPATH"]), "C:\\data"),
        strings(&["open C:\\data here", "-x", "C:\\dataPATH"])
    );
}

#[test]
fn bookmarks_match_by_alias_with_case() {
    let table = vec![
        Bookmark { alias: "docs".to_string(), path: "C:\\d".to_string() },
        Bookmark { alias: "Downloads".to_string(), path: "C:\\dl".to_string() },
        Bookmark { alias: "code".to_string(), path: "D:\\docs".to_string() },
    ];
    assert_eq!(filter_bookmarks(&table, "d"), vec![0, 1, 2]);
    assert_eq!(filter_bookmarks(&table, "D"), vec![1]);
    assert_eq!(filter_bookmarks(&table, "do"), vec![0]);
    assert_eq!(filter_bookmarks(&table, "ocs"), vec![0]);
    assert_eq!(filter_bookmarks(&table, ""), vec![0, 1, 2]);
    assert_eq!(filter_bookmarks(&table, "zz"), Vec::<usize>::new());
    assert_eq!(filter_bookmarks(&Vec::new(), ""), Vec::<usize>::new());
}

#[test]
fn entries_match_without_case() {
    let names = strings(&["Documents", "Pictures", "ROCKS", "Élan"]);
    assert_eq!(filter_entries(&names, "oc"), vec![0, 2]);
    assert_eq!(filter_entries(&names, "OC"), vec![0, 2]);
    assert_eq!(filter_entries(&names, "Pic"), vec![1]);
    assert_eq!(filter_entries(&names, ""), vec![0, 1, 2, 3]);
    assert_eq!(filter_entries(&names, "é"), Vec::<usize>::new());
    assert_eq!(filter_entries(&names, "É"), vec![3]);
    assert_eq!(filter_entries(&names, "documentss"), Vec::<usize>::new());
}

#[test]
fn listing_keeps_directories_in_order() {
    let entries = vec![
        ListingEntry { name: "b".to_string(), is_dir: true },
        ListingEntry { name: "x.txt".to_string(), is_dir: false },
        ListingEntry { name: "a".to_string(), is_dir: true },
        ListingEntry { name: "b".to_string(), is_dir: true },
    ];
    assert_eq!(directories(&entries), strings(&["b", "a", "b"]));
    assert_eq!(directories(&Vec::new()), Vec::<String>::new());
}

#[test]
fn resolve_joins_and_collapses() {
    assert_eq!(resolve_path(&strings(&[]), None), "");
    assert_eq!(resolve_path(&strings(&[]), Some("C:\\Users\\docs")), "C:\\Users\\docs");
    assert_eq!(resolve_path(&strings(&["C:\\Users"]), None), "C:\\Users\\");
    assert_eq!(resolve_path(&strings(&["C:\\Users"]), Some("docs")), "C:\\Users\\docs");
    assert_eq!(resolve_path(&strings(&["C:\\Users", "docs"]), Some("a")), "C:\\Users\\docs\\a");
    assert_eq!(resolve_path(&strings(&["C:\\"]), Some("Users")), "C:\\Users");
    assert_eq!(resolve_path(&strings(&["C:\\"]), None), "C:\\");
    assert_eq!(resolve_path(&strings(&[]), Some("\\\\server\\share")), "\\server\\share");
}

#[test]
fn resolved_path_has_no_doubled_separator() {
    let stacks = [strings(&["C:\\"]), strings(&["C:", "a\\"]), strings(&["\\x", "y"])];
    let tops = [None, Some("b"), Some("b\\c"), Some("b\\\\c"), Some("\\b"), Some("\\\\\\b\\\\")];
    for stack in &stacks {
        for top in tops {
            let path = resolve_path(stack, top);
            assert!(!path.contains("\\\\"), "{:?} {:?} gave {:?}", stack, top, path);
        }
    }
    assert_eq!(resolve_path(&strings(&["C:"]), Some("\\b")), "C:\\b");
    assert_eq!(resolve_path(&strings(&["C:", "a\\"]), Some("b\\\\c")), "C:\\a\\b\\c");
}

#[test]
fn a_run_of_separators_becomes_one() {
    assert_eq!(resolve_path(&strings(&["C:\\"]), Some("\\b")), "C:\\b");
    assert_eq!(resolve_path(&strings(&["a\\\\\\b"]), Some("c")), "a\\b\\c");
    assert_eq!(resolve_path(&strings(&["a\\\\\\\\"]), Some("\\\\c")), "a\\c");
    assert_eq!(resolve_path(&strings(&[""]), Some("")), "\\");
}

#[test]
fn dispatch_picks_first_command_with_trigger() {
    let table = vec![
        CommandSpec {
            trigger: 'c',
            display_name: "Code".to_string(),
            program_path: "code.exe".to_string(),
            arg_template: strings(&["PATH"]),
        },
        CommandSpec {
            trigger: 'x',
            display_name: "Explorer".to_string(),
            program_path: "explorer.exe".to_string(),
            arg_template: strings(&["/select,PATH"]),
        },
        CommandSpec {
            trigger: 'c',
            display_name: "Other".to_string(),
            program_path: "other.exe".to_string(),
            arg_template: strings(&[]),
        },
    ];
    assert_eq!(lookup(&table, 'c'), Some(0));
    assert_eq!(lookup(&table, 'x'), Some(1));
    assert_eq!(lookup(&table, 'z'), None);
    assert_eq!(dispatch("", &table, "C:\\a"), Action::Nothing);
    assert_eq!(dispatch("q", &table, "C:\\a"), Action::Close);
    assert_eq!(dispatch("qx", &table, "C:\\a"), Action::Close);
    assert_eq!(dispatch("z", &table, "C:\\a"), Action::Unknown);
    assert_eq!(
        dispatch("xd oc", &table, "C:\\a"),
        Action::Launch { program: "explorer.exe".to_string(), args: strings(&["/select,C:\\a"]) }
    );
    assert_eq!(
        dispatch("c", &table, ""),
        Action::Launch { program: "code.exe".to_string(), args: strings(&[""]) }
    );
    assert_eq!(label("", &table), "---");
    assert_eq!(label("q", &table), "QUIT");
    assert_eq!(label("z", &table), "NOT FOUND");
    assert_eq!(label("cx", &table), "Code");
    assert_eq!(label("x", &table), "Explorer");
}
