use gosh::aliases::Aliases;

#[test]
fn alias_round_trip_and_overwrite() {
    let mut table = Aliases::new();
    table.set(String::from("ll"), String::from("ls -la"));
    assert_eq!(table.get(String::from("ll")), Some(String::from("ls -la")));
    let before = table.pairs().len();
    table.set(String::from("ll"), String::from("ls -lah"));
    assert_eq!(table.get(String::from("ll")), Some(String::from("ls -lah")));
    assert_eq!(table.pairs().len(), before);
}

#[test]
fn missing_name_is_not_found() {
    let mut table = Aliases::new();
    table.set(String::from("ll"), String::from("ls -la"));
    assert_eq!(table.get(String::from("l")), None);
    assert_eq!(table.get(String::from("LL")), None);
}

#[test]
fn new_names_display_newest_first() {
    let mut table = Aliases::new();
    table.set(String::from("a"), String::from("first"));
    table.set(String::from("b"), String::from("second"));
    let pairs = table.pairs();
    assert_eq!(pairs.len(), 2);
    assert_eq!(pairs[0], (String::from("b"), String::from("second")));
    assert_eq!(pairs[1], (String::from("a"), String::from("first")));
}

#[test]
fn overwrite_keeps_position() {
    let mut table = Aliases::new();
    table.set(String::from("a"), String::from("one"));
    table.set(String::from("b"), String::from("two"));
    table.set(String::from("a"), String::from("three"));
    let pairs = table.pairs();
    assert_eq!(pairs.len(), 2);
    assert_eq!(pairs[0], (String::from("b"), String::from("two")));
    assert_eq!(pairs[1], (String::from("a"), String::from("three")));
}

#[test]
fn empty_table_has_no_pairs() {
    let table = Aliases::new();
    assert_eq!(table.pairs().len(), 0);
    assert_eq!(table.get(String::from("x")), None);
}
