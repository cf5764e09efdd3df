use minishell::parse_line;
use minishell::text::join_from;
use minishell::tokenizer::Lexer;

fn names(list: &[&str]) -> Vec<String> {
    list.iter().map(|s| String::from(*s)).collect()
}

fn plain_split(line: &str) -> Vec<String> {
    line.split(|c| c == ' ' || c == '\n').filter(|w| !w.is_empty()).map(String::from).collect()
}

#[test]
fn plain_lines_split_at_blanks() {
    for line in ["", " ", "a", "echo hello world", "  a  b\n c\n", "a\tb c", "x=1 y:2 ~z"] {
        assert_eq!(parse_line(line), Some(plain_split(line)));
    }
}

#[test]
fn quotes_are_not_part_of_words() {
    assert_eq!(parse_line("'a'"), Some(names(&["a"])));
    assert_ne!(parse_line("'a'"), Some(plain_split("'a'")));
}

#[test]
fn bare_words_joined_by_spaces_split_back() {
    for words in [names(&[]), names(&["a"]), names(&["echo", "hello", "world"]), names(&["a\tb", "c;d", "~"])] {
        let line = join_from(&words, 0, ' ');
        assert_eq!(parse_line(&line), Some(words));
    }
}

#[test]
fn output_without_inner_blanks_splits_back() {
    let words = parse_line("echo  hello\n  world").unwrap();
    let line = join_from(&words, 0, ' ');
    assert_eq!(line, "echo hello world");
    assert_eq!(parse_line(&line), Some(words));
}

#[test]
fn words_with_quotes_do_not_split_back() {
    let words = names(&["a'b"]);
    assert_eq!(parse_line(&join_from(&words, 0, ' ')), None);
    let words = names(&["a", ""]);
    assert_eq!(parse_line(&join_from(&words, 0, ' ')), Some(names(&["a"])));
}

#[test]
fn a_blank_outside_quotes_parts_a_line() {
    let a = "echo 'x y' \"z\"";
    let b = "w\\ v 'u'";
    let mut expected = parse_line(a).unwrap();
    expected.extend(parse_line(b).unwrap());
    assert_eq!(parse_line(&format!("{a} {b}")), Some(expected.clone()));
    assert_eq!(parse_line(&format!("{a}\n{b}")), Some(expected));
    assert_eq!(parse_line(&format!("{a} 'open")), None);
}

#[test]
fn feeding_in_pieces_is_feeding_at_once() {
    let line = "echo 'a b' \"c\\\" d\" e\\ f";
    for cut in 0..=line.len() {
        let mut lexer = Lexer::new();
        lexer.feed(&line[..cut]);
        lexer.feed(&line[cut..]);
        assert_eq!(lexer.finish(), parse_line(line));
    }
}
