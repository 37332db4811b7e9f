use docs_corpus::text::{chars_of, find, matches_at, string_of};

#[test]
fn chars_of_lists_characters() {
    assert_eq!(chars_of("a\u{e9}b"), vec!['a', '\u{e9}', 'b']);
    assert_eq!(chars_of(""), Vec::<char>::new());
}

#[test]
fn string_of_takes_a_range() {
    let chars = chars_of("hello world");
    assert_eq!(string_of(&chars, 6, 11), "world");
    assert_eq!(string_of(&chars, 3, 3), "");
    assert_eq!(string_of(&chars, 0, 11), "hello world");
}

#[test]
fn matches_at_compares_a_window() {
    let hay = chars_of("abcabc");
    let needle = chars_of("bc");
    assert!(matches_at(&hay, &needle, 1));
    assert!(matches_at(&hay, &needle, 4));
    assert!(!matches_at(&hay, &needle, 0));
    assert!(!matches_at(&hay, &needle, 5));
    assert!(!matches_at(&hay, &needle, 6));
    assert!(!matches_at(&hay, &needle, 60));
}

#[test]
fn find_returns_the_first_position() {
    let hay = chars_of("abcabc");
    let needle = chars_of("bc");
    assert_eq!(find(&hay, &needle, 0), Some(1));
    assert_eq!(find(&hay, &needle, 1), Some(1));
    assert_eq!(find(&hay, &needle, 2), Some(4));
    assert_eq!(find(&hay, &needle, 5), None);
    assert_eq!(find(&hay, &needle, 7), None);
}

#[test]
fn find_counts_characters_not_bytes() {
    let hay = chars_of("\u{e9}\u{e9}x");
    let needle = chars_of("x");
    assert_eq!(find(&hay, &needle, 0), Some(2));
}

#[test]
fn find_of_the_empty_needle() {
    let hay = chars_of("ab");
    let empty = chars_of("");
    assert_eq!(find(&hay, &empty, 0), Some(0));
    assert_eq!(find(&hay, &empty, 2), Some(2));
    assert_eq!(find(&hay, &empty, 3), None);
}

#[test]
fn find_misses_a_longer_needle() {
    let hay = chars_of("ab");
    let needle = chars_of("abc");
    assert_eq!(find(&hay, &needle, 0), None);
}
