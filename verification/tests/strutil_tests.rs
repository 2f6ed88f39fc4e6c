use connectorx::strutil::{decimal_string, find_char, replace_all, str_eq};

#[test]
fn decimal_spellings_are_exact() {
    assert_eq!(decimal_string(0), "0");
    assert_eq!(decimal_string(7), "7");
    assert_eq!(decimal_string(5432), "5432");
    assert_eq!(decimal_string(3306), "3306");
    assert_eq!(decimal_string(18446744073709551615), "18446744073709551615");
}

#[test]
fn string_equality_is_by_characters() {
    assert!(str_eq("postgres", "postgres"));
    assert!(!str_eq("postgres", "postgresql"));
    assert!(!str_eq("a", "b"));
    assert!(str_eq("", ""));
}

#[test]
fn find_char_reports_the_first_occurrence() {
    assert_eq!(find_char("mysql+binary", '+'), Some(5));
    assert_eq!(find_char("mysql", '+'), None);
    assert_eq!(find_char("a+b+c", '+'), Some(1));
}

#[test]
fn replace_scans_left_to_right_without_overlap() {
    assert_eq!(replace_all("aaa", "aa", "b"), "ba");
    assert_eq!(replace_all("xyx", "y", "yy"), "xyyx");
    assert_eq!(replace_all("abc", "", "z"), "abc");
    assert_eq!(replace_all("abc", "abcd", "z"), "abc");
    assert_eq!(replace_all("\"db1\".x", "\"db1\"", "db1"), "db1.x");
}
