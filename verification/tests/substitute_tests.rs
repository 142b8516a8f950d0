use gosh::substitute::substitute;

#[test]
fn tilde_expands_to_home() {
    assert_eq!(substitute("~/x", "/home/u"), "/home/u/x");
}

#[test]
fn escaped_tilde_stays_literal() {
    assert_eq!(substitute("\\~/x", "/home/u"), "~/x");
}

#[test]
fn every_unescaped_tilde_expands() {
    assert_eq!(substitute("~ ~", "/home/u"), "/home/u /home/u");
}

#[test]
fn backslash_before_other_character_is_dropped() {
    assert_eq!(substitute("a\\bc", "/home/u"), "abc");
}

#[test]
fn double_backslash_keeps_one() {
    assert_eq!(substitute("\\\\x", "/home/u"), "\\x");
}

#[test]
fn escape_reaches_only_the_next_character() {
    assert_eq!(substitute("\\~~", "/home/u"), "~/home/u");
}
