use lab_dashboard::text::{
    concat3, decimal_i64, is_blank, owned, replace, str_eq, str_lt, to_ascii_lowercase,
    trim_end_char, trim_whitespace,
};

#[test]
fn lowercases_ascii_letters_only() {
    assert_eq!(to_ascii_lowercase("QuEuEd ÄB_1"), "queued Äb_1");
}

#[test]
fn trims_unicode_white_space() {
    assert_eq!(trim_whitespace("\t hi there \u{3000}\n"), "hi there");
    assert_eq!(trim_whitespace("   "), "");
    assert!(is_blank(" \n\t"));
    assert!(!is_blank(" x "));
}

#[test]
fn replaces_from_the_left_without_overlap() {
    assert_eq!(replace("aaa", "aa", "b"), "ba");
    assert_eq!(replace("{user}{user}", "{user}", "x"), "xx");
    assert_eq!(replace("none here", "{host}", "x"), "none here");
}

#[test]
fn orders_strings_by_code_point() {
    assert!(str_lt("abc", "abd"));
    assert!(str_lt("ab", "abc"));
    assert!(!str_lt("b", "abc"));
    assert!(!str_lt("É", "z"));
    assert!(!str_lt("same", "same"));
    assert!(str_eq("same", "same"));
    assert!(!str_eq("same", "sane"));
}

#[test]
fn prints_decimal_numbers() {
    assert_eq!(decimal_i64(0), "0");
    assert_eq!(decimal_i64(1234), "1234");
    assert_eq!(decimal_i64(-1234), "-1234");
    assert_eq!(decimal_i64(i64::MIN), "-9223372036854775808");
    assert_eq!(decimal_i64(i64::MAX), "9223372036854775807");
}

#[test]
fn trims_a_trailing_character() {
    assert_eq!(trim_end_char("https://forge.example//", '/'), "https://forge.example");
    assert_eq!(trim_end_char("///", '/'), "");
    assert_eq!(concat3("a", "/", "b"), "a/b");
    assert_eq!(owned("x"), "x");
}
