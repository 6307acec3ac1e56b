use theta_vault_rust::text::{
    chars_of, find_char, i64_to_string, join_strings, parse_usize, split_nonempty, str_contains_char,
    str_contains_str, str_eq, str_in_list, string_from_chars, sub_chars, u64_to_string, usize_to_string,
};

#[test]
fn decimal_spelling() {
    assert_eq!(usize_to_string(0), "0");
    assert_eq!(usize_to_string(1234), "1234");
    assert_eq!(u64_to_string(u64::MAX), u64::MAX.to_string());
    assert_eq!(i64_to_string(-42), "-42");
    assert_eq!(i64_to_string(i64::MIN), i64::MIN.to_string());
}

#[test]
fn usize_parsing_like_std() {
    assert_eq!(parse_usize("42"), Some(42));
    assert_eq!(parse_usize("+7"), Some(7));
    assert_eq!(parse_usize("007"), Some(7));
    assert_eq!(parse_usize(""), None);
    assert_eq!(parse_usize("+"), None);
    assert_eq!(parse_usize("-1"), None);
    assert_eq!(parse_usize("1 "), None);
    assert_eq!(parse_usize("99999999999999999999999"), None);
    for s in ["0", "15", "+3", "x", "18446744073709551615", "18446744073709551616"] {
        assert_eq!(parse_usize(s), s.parse::<usize>().ok());
    }
}

#[test]
fn printed_numbers_read_back() {
    for n in [0usize, 9, 10, 12345, usize::MAX] {
        assert_eq!(parse_usize(&usize_to_string(n)), Some(n));
    }
}

#[test]
fn splitting_and_joining() {
    assert_eq!(split_nonempty("a,,b,", ','), vec!["a".to_string(), "b".to_string()]);
    assert!(split_nonempty("", ',').is_empty());
    let parts = vec!["x".to_string(), "".to_string(), "y".to_string()];
    assert_eq!(join_strings(&parts, ", "), "x, , y");
    assert_eq!(join_strings(&[], ","), "");
}

#[test]
fn split_join_round_trip_example() {
    let parts = vec!["earnings".to_string(), "hedge".to_string(), "0dte".to_string()];
    let joined = join_strings(&parts, ";");
    assert_eq!(split_nonempty(&joined, ';'), parts);
}

#[test]
fn searching_text() {
    assert!(str_contains_str("hello world", "lo w"));
    assert!(str_contains_str("abc", ""));
    assert!(!str_contains_str("abc", "abcd"));
    assert!(!str_contains_str("", "a"));
    assert!(str_contains_char("a,b", ','));
    assert!(!str_contains_char("ab", ','));
    assert!(str_eq("x", "x"));
    assert!(!str_eq("x", "X"));
    let list = vec!["SPY".to_string(), "QQQ".to_string()];
    assert!(str_in_list(&list, "QQQ"));
    assert!(!str_in_list(&list, "IWM"));
}

#[test]
fn char_helpers() {
    let v = chars_of("héllo");
    assert_eq!(v.len(), 5);
    assert_eq!(find_char(&v, 'l'), 2);
    assert_eq!(find_char(&v, 'z'), 5);
    assert_eq!(string_from_chars(&sub_chars(&v, 1, 3)), "él");
}
