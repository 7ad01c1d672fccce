use tinyshell::tokenizer::parse_command;

fn strings(v: &[&str]) -> Vec<String> {
    v.iter().map(|s| s.to_string()).collect()
}

#[test]
fn single_quotes_group_words() {
    assert_eq!(parse_command("echo 'a b' c"), strings(&["echo", "a b", "c"]));
}

#[test]
fn escaped_double_quote_inside_double_quotes() {
    assert_eq!(parse_command("echo \"a\\\"b\""), strings(&["echo", "a\"b"]));
}

#[test]
fn unquoted_backslash_escapes_space() {
    assert_eq!(parse_command("echo a\\ b"), strings(&["echo", "a b"]));
}

#[test]
fn empty_line_has_no_words() {
    assert_eq!(parse_command(""), Vec::<String>::new());
    assert_eq!(parse_command("   "), Vec::<String>::new());
}

#[test]
fn repeated_spaces_do_not_make_empty_words() {
    assert_eq!(parse_command("  ls   -l  "), strings(&["ls", "-l"]));
}

#[test]
fn empty_quotes_make_no_word() {
    assert_eq!(parse_command("a '' b"), strings(&["a", "b"]));
}

#[test]
fn adjacent_quoted_parts_join() {
    assert_eq!(parse_command("\"a\"'b'c"), strings(&["abc"]));
}

#[test]
fn quotes_of_the_other_kind_are_literal() {
    assert_eq!(parse_command("\"it's\" 'say \"hi\"'"), strings(&["it's", "say \"hi\""]));
}

#[test]
fn backslash_is_literal_in_single_quotes() {
    assert_eq!(parse_command("'a\\nb'"), strings(&["a\\nb"]));
}

#[test]
fn backslash_before_ordinary_char_in_double_quotes_is_kept() {
    assert_eq!(parse_command("\"a\\nb\""), strings(&["a\\nb"]));
    assert_eq!(parse_command("\"a\\\\b\""), strings(&["a\\b"]));
    assert_eq!(parse_command("\"\\$HOME\""), strings(&["$HOME"]));
}

#[test]
fn unquoted_backslash_escapes_quotes() {
    assert_eq!(parse_command("a\\'b \\\"c"), strings(&["a'b", "\"c"]));
}

#[test]
fn trailing_backslash_is_kept() {
    assert_eq!(parse_command("ab\\"), strings(&["ab\\"]));
    assert_eq!(parse_command("\"ab\\"), strings(&["ab\\"]));
}

#[test]
fn unterminated_quote_keeps_what_was_read() {
    assert_eq!(parse_command("echo 'a b"), strings(&["echo", "a b"]));
    assert_eq!(parse_command("echo \"x  y"), strings(&["echo", "x  y"]));
}

#[test]
fn non_ascii_characters_pass_through() {
    assert_eq!(parse_command("écho 'ñ ü'"), strings(&["écho", "ñ ü"]));
}

#[test]
fn rejoined_words_split_the_same() {
    let line = "cat  'file.txt'   \"other\"x   y";
    let words = parse_command(line);
    assert_eq!(words, strings(&["cat", "file.txt", "otherx", "y"]));
    let joined = words.join(" ");
    assert_eq!(parse_command(&joined), words);
}
