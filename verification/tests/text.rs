use photo_album::image_filter::{placeholder_list, usable_tag_text};
use photo_album::schema::split_statements;
use photo_album::text::{char_is_white_space, join_strings, str_eq, trim, u64_to_decimal, usize_to_decimal};

#[test]
fn decimal_text_of_numbers() {
    assert_eq!(u64_to_decimal(0), "0");
    assert_eq!(u64_to_decimal(7), "7");
    assert_eq!(u64_to_decimal(1234567890), "1234567890");
    assert_eq!(u64_to_decimal(u64::MAX), u64::MAX.to_string());
    assert_eq!(usize_to_decimal(10), "10");
}

#[test]
fn join_strings_as_join() {
    let parts = vec!["a".to_string(), "b".to_string(), "c".to_string()];
    assert_eq!(join_strings(&parts, ", "), "a, b, c");
    assert_eq!(join_strings(&vec![], ","), "");
    assert_eq!(join_strings(&vec!["x".to_string()], ","), "x");
}

#[test]
fn str_eq_compares_characters() {
    assert!(str_eq("abc", "abc"));
    assert!(!str_eq("abc", "abd"));
    assert!(!str_eq("abc", "ab"));
    assert!(str_eq("", ""));
}

#[test]
fn trim_matches_std_trim() {
    for s in ["  a b \n", "\t\u{3000}x\u{a0}", "", "   ", "none", "\u{2028}y\u{85}"] {
        assert_eq!(trim(s), s.trim(), "{:?}", s);
    }
}

#[test]
fn white_space_matches_std() {
    for c in [' ', '\t', '\n', '\u{a0}', '\u{3000}', '\u{200b}', 'a', '\u{1680}', '\u{180e}'] {
        assert_eq!(char_is_white_space(c), c.is_whitespace(), "{:?}", c);
    }
}

#[test]
fn placeholder_lists() {
    assert_eq!(placeholder_list(0), "");
    assert_eq!(placeholder_list(1), "?");
    assert_eq!(placeholder_list(3), "?,?,?");
}

#[test]
fn usable_tag_text_checks_characters() {
    assert_eq!(usable_tag_text("sun_set-2".to_string()), Some("sun_set-2".to_string()));
    assert_eq!(usable_tag_text("été".to_string()), Some("été".to_string()));
    assert_eq!(usable_tag_text("a b".to_string()), None);
    assert_eq!(usable_tag_text("".to_string()), None);
    assert_eq!(usable_tag_text("x!".to_string()), None);
}

#[test]
fn schema_splits_at_semicolons() {
    let parts = split_statements("CREATE TABLE a (x);\nCREATE TABLE b (y);\n");
    assert_eq!(parts, vec!["CREATE TABLE a (x)".to_string(), "\nCREATE TABLE b (y)".to_string(), "\n".to_string()]);
    assert_eq!(split_statements(""), vec!["".to_string()]);
    assert_eq!(split_statements(";"), vec!["".to_string(), "".to_string()]);
}

#[test]
fn schema_pieces_join_back() {
    let s = "a;b;;c";
    assert_eq!(split_statements(s).join(";"), s);
}
