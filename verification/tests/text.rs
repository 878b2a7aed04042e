use audio_backend::text::{
    chars_of, ends_with, format_decimal, format_signed, join_path, split_path, str_eq, str_lt,
};

fn parts(list: &[&str]) -> Vec<String> {
    list.iter().map(|s| s.to_string()).collect()
}

#[test]
fn chars_are_read_in_order() {
    assert_eq!(chars_of("a\u{e9}z"), vec!['a', '\u{e9}', 'z']);
    assert_eq!(chars_of(""), Vec::<char>::new());
}

#[test]
fn equality_is_by_characters() {
    assert!(str_eq("", ""));
    assert!(str_eq("get-version", "get-version"));
    assert!(!str_eq("get-version", "get-versio"));
    assert!(!str_eq("a", "b"));
}

#[test]
fn order_is_lexicographic() {
    assert!(str_lt("", "a"));
    assert!(!str_lt("a", ""));
    assert!(!str_lt("", ""));
    assert!(str_lt("a", "b"));
    assert!(str_lt("a", "ab"));
    assert!(!str_lt("ab", "a"));
    assert!(str_lt("Z", "a"));
    assert!(str_lt("z", "\u{e9}"));
    for (a, b) in [("abc", "abd"), ("x", "x"), ("10", "9"), ("\u{1f600}", "\u{e9}")] {
        assert_eq!(str_lt(a, b), a < b);
        assert_eq!(str_lt(b, a), b < a);
    }
}

#[test]
fn suffix_is_found() {
    assert!(ends_with("a.ogg", ".ogg"));
    assert!(ends_with(".ogg", ".ogg"));
    assert!(!ends_with("ogg", ".ogg"));
    assert!(!ends_with("a.ogg ", ".ogg"));
    assert!(!ends_with("a.OGG", ".ogg"));
    assert!(ends_with("anything", ""));
}

#[test]
fn split_keeps_empty_pieces() {
    assert_eq!(split_path("a/b/c.ogg"), parts(&["a", "b", "c.ogg"]));
    assert_eq!(split_path(""), parts(&[""]));
    assert_eq!(split_path("/"), parts(&["", ""]));
    assert_eq!(split_path("/a"), parts(&["", "a"]));
    assert_eq!(split_path("a//b/"), parts(&["a", "", "b", ""]));
    assert_eq!(split_path("\u{e9}/\u{1f600}"), parts(&["\u{e9}", "\u{1f600}"]));
    for text in ["a/b/c.ogg", "", "/", "a//b/", "no slash"] {
        let expected: Vec<String> = text.split("/").map(str::to_string).collect();
        assert_eq!(split_path(text), expected);
    }
}

#[test]
fn join_puts_slashes_between() {
    assert_eq!(join_path(&parts(&["a", "b", "c.ogg"])), "a/b/c.ogg");
    assert_eq!(join_path(&parts(&[])), "");
    assert_eq!(join_path(&parts(&["a"])), "a");
    assert_eq!(join_path(&parts(&["", ""])), "/");
}

#[test]
fn join_undoes_split() {
    for text in ["a/b/c.ogg", "", "/", "a//b/", "no slash", "\u{e9}/x"] {
        assert_eq!(join_path(&split_path(text)), text);
    }
}

#[test]
fn decimal_has_no_leading_zeros() {
    assert_eq!(format_decimal(0), "0");
    assert_eq!(format_decimal(7), "7");
    assert_eq!(format_decimal(10), "10");
    assert_eq!(format_decimal(4294967295), "4294967295");
    assert_eq!(format_decimal(u64::MAX), "18446744073709551615");
}

#[test]
fn signed_decimal_has_a_minus_sign() {
    assert_eq!(format_signed(0), "0");
    assert_eq!(format_signed(-1), "-1");
    assert_eq!(format_signed(-32768), "-32768");
    assert_eq!(format_signed(32767), "32767");
    assert_eq!(format_signed(i32::MIN), "-2147483648");
}
