use minishell::reader::{prompt, CommandReader};
use minishell::text::{join_from, same_text, trim, trim_end};

fn names(list: &[&str]) -> Vec<String> {
    list.iter().map(|s| String::from(*s)).collect()
}

#[test]
fn a_complete_line_is_a_command() {
    let mut reader = CommandReader::new();
    assert_eq!(reader.push_line("echo hello world\n"), Some(names(&["echo", "hello", "world"])));
    assert!(!reader.is_waiting());
}

#[test]
fn an_open_quote_waits_for_the_next_line() {
    let mut reader = CommandReader::new();
    assert_eq!(reader.push_line("echo 'hello\n"), None);
    assert!(reader.is_waiting());
    assert_eq!(reader.push_line("world'\n"), Some(names(&["echo", "hello\nworld"])));
    assert!(!reader.is_waiting());
}

#[test]
fn a_command_may_span_three_lines() {
    let mut reader = CommandReader::new();
    assert_eq!(reader.push_line("echo \"a\n"), None);
    assert_eq!(reader.push_line("b\n"), None);
    assert_eq!(reader.push_line("c\" d\n"), Some(names(&["echo", "a\nb\nc", "d"])));
}

#[test]
fn the_reader_starts_afresh_after_a_command() {
    let mut reader = CommandReader::new();
    assert_eq!(reader.push_line("echo 'a\n"), None);
    assert_eq!(reader.push_line("b'\n"), Some(names(&["echo", "a\nb"])));
    assert_eq!(reader.push_line("pwd\n"), Some(names(&["pwd"])));
}

#[test]
fn white_space_at_the_ends_of_a_command_is_dropped() {
    let mut reader = CommandReader::new();
    assert_eq!(reader.push_line("\t echo hi \t\r\n"), Some(names(&["echo", "hi"])));
    assert_eq!(reader.push_line(" \t\n"), Some(names(&[])));
    assert_eq!(reader.push_line(""), Some(names(&[])));
}

#[test]
fn white_space_inside_an_open_quote_stays() {
    let mut reader = CommandReader::new();
    assert_eq!(reader.push_line("echo 'a \n"), None);
    assert_eq!(reader.push_line(" b'\n"), Some(names(&["echo", "a \n b"])));
}

#[test]
fn a_backslash_at_the_end_of_a_line_waits_for_the_next_line() {
    let mut reader = CommandReader::new();
    assert_eq!(reader.push_line("echo a\\\n"), None);
    assert_eq!(reader.push_line("b\n"), Some(names(&["echo", "a\nb"])));
}

#[test]
fn trim_drops_white_space_at_both_ends() {
    assert_eq!(trim("  a b \n"), "a b");
    assert_eq!(trim("\u{a0}\ta\u{3000}"), "a");
    assert_eq!(trim("a"), "a");
    assert_eq!(trim(" \n\t"), "");
    assert_eq!(trim(""), "");
}

#[test]
fn trim_end_keeps_the_start() {
    assert_eq!(trim_end("  a b \n\n"), "  a b");
    assert_eq!(trim_end("out\r\n"), "out");
    assert_eq!(trim_end(" \n"), "");
    assert_eq!(trim_end(""), "");
    assert_eq!(trim_end("\u{e9}t\u{e9} "), "\u{e9}t\u{e9}");
}

#[test]
fn same_text_compares_character_by_character() {
    assert!(same_text("", ""));
    assert!(same_text("abc", "abc"));
    assert!(!same_text("abc", "abd"));
    assert!(!same_text("abc", "ab"));
    assert!(!same_text("ab", "abc"));
    assert!(same_text("\u{e9}", "\u{e9}"));
    assert!(!same_text("\u{e9}", "e"));
}

#[test]
fn join_from_skips_the_front() {
    let parts = names(&["echo", "a", "", "b"]);
    assert_eq!(join_from(&parts, 0, ' '), "echo a  b");
    assert_eq!(join_from(&parts, 1, ' '), "a  b");
    assert_eq!(join_from(&parts, 3, ','), "b");
    assert_eq!(join_from(&parts, 4, ' '), "");
    assert_eq!(join_from(&names(&["x", "y"]), 0, ':'), "x:y");
}

#[test]
fn the_prompt_is_a_dollar_and_a_space() {
    assert_eq!(prompt(), "$ ");
}
