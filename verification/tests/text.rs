use plex_pg_core::bytes::{
    contains_ascii_icase, eq_ignore_ascii_case, find_ascii_icase, find_closing_paren, find_subslice,
    has_boundary, push_capped, slice_eq_icase, starts_with_icase,
};
use plex_pg_core::text::{
    chars_of, contains, contains_icase, ends_with, find_cut, find_from, is_whitespace, joined,
    number_text, str_eq, str_eq_icase, string_of, trim,
};

#[test]
fn blanks_are_those_of_the_standard_library() {
    for n in 0..=0x10FFFFu32 {
        if let Some(c) = char::from_u32(n) {
            assert_eq!(is_whitespace(c), c.is_whitespace(), "{n:#x}");
        }
    }
}

#[test]
fn trimming_is_that_of_the_standard_library() {
    for s in ["", " ", "  a b\t\n", "\u{3000}x\u{a0}", "plain"] {
        assert_eq!(string_of(&trim(&chars_of(s))), s.trim());
    }
}

#[test]
fn texts_are_found_with_and_without_regard_to_case() {
    assert!(contains("select x", "lect"));
    assert!(!contains("select x", "LECT"));
    assert!(contains_icase("select x", "LECT"));
    assert!(!contains_icase("stra\u{df}e", "STRASSE"));
    assert!(contains("anything", ""));
    assert!(ends_with("a.db", ".db"));
    assert!(!ends_with("a.dbx", ".db"));
    assert_eq!(find_from(&chars_of("abcabc"), 1, &chars_of("abc")), Some(3));
    assert_eq!(find_from(&chars_of("abcabc"), 4, &chars_of("abc")), None);
}

#[test]
fn texts_are_compared_and_joined() {
    assert!(str_eq("a", "a"));
    assert!(!str_eq("a", "A"));
    assert!(str_eq_icase("aB", "Ab"));
    assert!(!str_eq_icase("\u{e4}", "\u{c4}"));
    assert_eq!(joined("a", "b"), "ab");
    assert_eq!(string_of(&number_text(0)), "0");
    assert_eq!(string_of(&number_text(u64::MAX)), u64::MAX.to_string());
}

#[test]
fn cuts_fall_between_characters() {
    let s = chars_of("a\u{e9}\u{20ac}\u{1F4FA}");
    assert_eq!(find_cut(&s, 0), Some(0));
    assert_eq!(find_cut(&s, 1), Some(1));
    assert_eq!(find_cut(&s, 2), None);
    assert_eq!(find_cut(&s, 3), Some(2));
    assert_eq!(find_cut(&s, 6), Some(3));
    assert_eq!(find_cut(&s, 10), Some(4));
    assert_eq!(find_cut(&s, 11), None);
}

#[test]
fn bytes_are_found_with_and_without_regard_to_case() {
    assert_eq!(find_subslice(b"hello", b"l"), Some(2));
    assert_eq!(find_subslice(b"hello", b""), None);
    assert_eq!(find_ascii_icase(b"Where x", b"WHERE"), Some(0));
    assert!(contains_ascii_icase(b"a wHeRe b", b"where"));
    assert!(!contains_ascii_icase(b"abc", b""));
    assert!(starts_with_icase(b"INSERT INTO", b"insert"));
    assert!(slice_eq_icase(b"xxABC", 2, b"abc"));
    assert!(eq_ignore_ascii_case(b"aZ", b"Az"));
    assert!(!eq_ignore_ascii_case(b"a", b"ab"));
}

#[test]
fn words_end_at_boundaries() {
    assert!(has_boundary(b"int", 3));
    assert!(has_boundary(b"int(8)", 3));
    assert!(!has_boundary(b"integer", 3));
}

#[test]
fn parentheses_are_matched() {
    assert_eq!(find_closing_paren(b"(a)b", 0), Some(2));
    assert_eq!(find_closing_paren(b"(a", 0), None);
}

#[test]
fn appending_stops_at_the_cap() {
    let mut v = b"ab".to_vec();
    push_capped(&mut v, 4, b"cde");
    assert_eq!(v, b"abcd");
    push_capped(&mut v, 4, b"x");
    assert_eq!(v, b"abcd");
}
