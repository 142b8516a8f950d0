use gosh::tokenize::split_whitespace_quotes;

#[test]
fn quoted_word_then_plain_word() {
    let words = split_whitespace_quotes("\"a b\" c");
    assert_eq!(words.len(), 2);
    assert_eq!(words[0], "a b");
    assert_eq!(words[1], "c");
}

#[test]
fn double_space_yields_no_empty_words() {
    let words = split_whitespace_quotes("a  b");
    assert_eq!(words.len(), 2);
    assert_eq!(words[0], "a");
    assert_eq!(words[1], "b");
}

#[test]
fn empty_line_yields_no_words() {
    let words = split_whitespace_quotes("");
    assert_eq!(words.len(), 0);
}

#[test]
fn spaces_only_yield_no_words() {
    let words = split_whitespace_quotes("   ");
    assert_eq!(words.len(), 0);
}

#[test]
fn unterminated_quote_is_accepted() {
    let words = split_whitespace_quotes("\"a b");
    assert_eq!(words.len(), 1);
    assert_eq!(words[0], "a b");
}

#[test]
fn quote_flushes_pending_word() {
    let words = split_whitespace_quotes("ab\"cd e\"");
    assert_eq!(words.len(), 2);
    assert_eq!(words[0], "ab");
    assert_eq!(words[1], "cd e");
}

#[test]
fn quote_characters_never_appear_in_words() {
    let words = split_whitespace_quotes("\"\"x\"\"");
    assert_eq!(words.len(), 1);
    assert_eq!(words[0], "x");
}
