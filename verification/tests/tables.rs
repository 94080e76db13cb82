use splight::tables::{parse_bookmark, parse_bookmarks, parse_command, parse_commands};
use splight::{Bookmark, CommandSpec, Flaw, LoadError};

fn bookmark(alias: &str, path: &str) -> Bookmark {
    Bookmark { alias: alias.to_string(), path: path.to_string() }
}

fn command(trigger: char, name: &str, program: &str, args: &[&str]) -> CommandSpec {
    CommandSpec {
        trigger,
        display_name: name.to_string(),
        program_path: program.to_string(),
        arg_template: args.iter().map(|a| a.to_string()).collect(),
    }
}

#[test]
fn bookmark_line_is_alias_then_path() {
    assert_eq!(parse_bookmark("docs C:\\Users\\docs"), bookmark("docs", "C:\\Users\\docs"));
    assert_eq!(parse_bookmark("proj D:\\My Projects\\x"), bookmark("proj", "D:\\My Projects\\x"));
    assert_eq!(parse_bookmark("lonely"), bookmark("lonely", ""));
    assert_eq!(parse_bookmark(""), bookmark("", ""));
    assert_eq!(parse_bookmark(" C:\\x"), bookmark("", "C:\\x"));
}

#[test]
fn bookmark_table_has_one_bookmark_per_line() {
    assert_eq!(
        parse_bookmarks("docs C:\\Users\\docs\r\nproj D:\\My Projects"),
        vec![bookmark("docs", "C:\\Users\\docs"), bookmark("proj", "D:\\My Projects")]
    );
    assert_eq!(parse_bookmarks(""), vec![bookmark("", "")]);
    assert_eq!(parse_bookmarks("a b\r\n"), vec![bookmark("a", "b"), bookmark("", "")]);
    assert_eq!(parse_bookmarks("a b\nc d"), vec![bookmark("a", "b\nc d")]);
}

#[test]
fn command_block_is_header_then_arguments() {
    assert_eq!(
        parse_command("Explorer x explorer.exe\r\nPATH"),
        Ok(command('x', "Explorer", "explorer.exe", &["PATH"]))
    );
    assert_eq!(
        parse_command("Code c C:\\Program Files\\code.exe\r\n--new-window\r\nPATH"),
        Ok(command('c', "Code", "C:\\Program Files\\code.exe", &["--new-window", "PATH"]))
    );
    assert_eq!(parse_command("Bare b"), Ok(command('b', "Bare", "", &[])));
    assert_eq!(parse_command("Bare b "), Ok(command('b', "Bare", "", &[])));
    assert_eq!(parse_command("Żółw ż żółw.exe"), Ok(command('ż', "Żółw", "żółw.exe", &[])));
}

#[test]
fn command_block_without_trigger_is_refused() {
    assert_eq!(parse_command("Explorer"), Err(Flaw::MissingTrigger));
    assert_eq!(parse_command(""), Err(Flaw::MissingTrigger));
    assert_eq!(parse_command("\r\nPATH"), Err(Flaw::MissingTrigger));
}

#[test]
fn command_block_with_long_or_empty_trigger_is_refused() {
    assert_eq!(parse_command("Explorer xy explorer.exe"), Err(Flaw::BadTrigger));
    assert_eq!(parse_command("Explorer  explorer.exe"), Err(Flaw::BadTrigger));
    assert_eq!(parse_command("Explorer "), Err(Flaw::BadTrigger));
}

#[test]
fn command_table_has_one_command_per_block() {
    let text = "Explorer x explorer.exe\r\nPATH\r\n\r\nCode c code.exe\r\n--new-window\r\nPATH";
    assert_eq!(
        parse_commands(text),
        Ok(vec![
            command('x', "Explorer", "explorer.exe", &["PATH"]),
            command('c', "Code", "code.exe", &["--new-window", "PATH"]),
        ])
    );
}

#[test]
fn command_table_reports_first_bad_block() {
    let text = "Explorer x explorer.exe\r\n\r\nBroken\r\nPATH\r\n\r\nWorse xy z";
    assert_eq!(parse_commands(text), Err(LoadError { block: 1, flaw: Flaw::MissingTrigger }));
    let text = "Explorer xx explorer.exe\r\n\r\nBroken";
    assert_eq!(parse_commands(text), Err(LoadError { block: 0, flaw: Flaw::BadTrigger }));
    assert_eq!(parse_commands(""), Err(LoadError { block: 0, flaw: Flaw::MissingTrigger }));
}
