use minishell::parse_line;

fn words(expected: &[&str]) -> Option<Vec<String>> {
    Some(expected.iter().map(|s| String::from(*s)).collect())
}

#[test]
fn test_parse_args_simple() {
    let expected = ["echo", "hello", "world"];
    let expected = expected.map(String::from).to_vec();
    assert_eq!(parse_line("echo hello world"), Some(expected));
}

#[test]
fn test_parse_args_single_quotes() {
    let expected = ["echo", "hello world"];
    let expected = expected.map(String::from).to_vec();
    assert_eq!(parse_line("echo 'hello world'"), Some(expected));

    let expected = ["echo", "hello world"];
    let expected = expected.map(String::from).to_vec();
    assert_eq!(parse_line("'echo' 'hello world'"), Some(expected));

    let expected = ["echo", "hello world", "rust"];
    let expected = expected.map(String::from).to_vec();
    assert_eq!(parse_line("echo 'hello world' rust"), Some(expected));
}

#[test]
fn test_parse_args_single_quotes_with_backslash() {
    let expected = ["echo", r"hello\ world"];
    let expected = expected.map(String::from).to_vec();
    assert_eq!(parse_line(r"'echo' 'hello\ world'"), Some(expected));
}

#[test]
fn test_parse_args_double_quotes() {
    let expected = ["echo", "hello world"];
    let expected = expected.map(String::from).to_vec();
    assert_eq!(parse_line("echo \"hello world\""), Some(expected));
}

#[test]
fn test_parse_args_double_quotes_with_backslash() {
    let expected = ["echo", r"hello\ \world"];
    let expected = expected.map(String::from).to_vec();
    assert_eq!(parse_line(r####"echo "hello\ \world""####), Some(expected));

    let expected = ["echo", r"hello'script'\n'world"];
    let expected = expected.map(String::from).to_vec();
    assert_eq!(
        parse_line(r#"echo "hello'script'\n'world""#),
        Some(expected)
    );

    let expected = ["echo", r#"hello"insidequotesscript""#];
    let expected = expected.map(String::from).to_vec();
    assert_eq!(
        parse_line(r#"echo "hello\"insidequotes"script\""#),
        Some(expected)
    );

    let expected = ["echo", r#"world'shell'\n'hello"#];
    let expected = expected.map(String::from).to_vec();
    assert_eq!(
        parse_line(r#"echo "world'shell'\\n'hello""#),
        Some(expected)
    );
}

#[test]
fn test_parse_args_multiline() {
    assert_eq!(parse_line("echo 'hello world"), None);
}

#[test]
fn test_parse_args_backslash_outside() {
    let expected = ["echo", "hello   world"];
    let expected = expected.map(String::from).to_vec();
    assert_eq!(parse_line(r#"echo hello\ \ \ world"#), Some(expected));
}

#[test]
fn blank_line_has_no_words() {
    assert_eq!(parse_line(""), words(&[]));
    assert_eq!(parse_line("   \n  "), words(&[]));
}

#[test]
fn runs_of_blanks_collapse() {
    assert_eq!(parse_line("  a   b\n\nc "), words(&["a", "b", "c"]));
}

#[test]
fn tab_is_an_ordinary_character() {
    assert_eq!(parse_line("a\tb c"), words(&["a\tb", "c"]));
}

#[test]
fn empty_quotes_make_an_empty_word() {
    assert_eq!(parse_line("echo ''"), words(&["echo", ""]));
    assert_eq!(parse_line("echo \"\" x"), words(&["echo", "", "x"]));
    assert_eq!(parse_line("'' ''"), words(&["", ""]));
    assert_eq!(parse_line("a''"), words(&["a"]));
}

#[test]
fn adjacent_pieces_join() {
    assert_eq!(parse_line("a'b c'\"d e\"f"), words(&["ab cd ef"]));
}

#[test]
fn unterminated_double_quote_is_incomplete() {
    assert_eq!(parse_line("echo \"hello"), None);
    assert_eq!(parse_line("echo \"hello\\\""), None);
    assert_eq!(parse_line("echo \"hello\\"), None);
}

#[test]
fn trailing_backslash_is_incomplete() {
    assert_eq!(parse_line("echo hello\\"), None);
    assert_eq!(parse_line("echo hello\\\\"), words(&["echo", "hello\\"]));
}

#[test]
fn backslash_escapes_quotes_and_newline_outside_quotes() {
    assert_eq!(parse_line("a\\'b \\\"c\\\nd"), words(&["a'b", "\"c\nd"]));
}

#[test]
fn quotes_of_the_other_kind_are_ordinary_inside_quotes() {
    assert_eq!(parse_line("'a\"b' \"c'd\""), words(&["a\"b", "c'd"]));
}

#[test]
fn characters_beyond_ascii_are_kept() {
    assert_eq!(parse_line("echo 'caf\u{e9} \u{4e16}' \u{1f600}"), words(&["echo", "caf\u{e9} \u{4e16}", "\u{1f600}"]));
}
