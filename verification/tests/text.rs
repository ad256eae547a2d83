use script_utils::text::{contains, parse_i32, replace, same_text, u32_to_decimal};

#[test]
fn parse_i32_accepts_what_std_accepts() {
    assert_eq!(parse_i32("42"), Some(42));
    assert_eq!(parse_i32("-7"), Some(-7));
    assert_eq!(parse_i32("+5"), Some(5));
    assert_eq!(parse_i32("007"), Some(7));
    assert_eq!(parse_i32("2147483647"), Some(i32::MAX));
    assert_eq!(parse_i32("-2147483648"), Some(i32::MIN));
}

#[test]
fn parse_i32_rejects_what_std_rejects() {
    for s in ["", "-", "+", "2147483648", "-2147483649", "12a", " 1", "1 ", "٣", "99999999999999999999"] {
        assert_eq!(parse_i32(s), s.parse::<i32>().ok(), "input {:?}", s);
        assert_eq!(parse_i32(s), None);
    }
}

#[test]
fn decimal_text() {
    assert_eq!(u32_to_decimal(0), "0");
    assert_eq!(u32_to_decimal(10), "10");
    assert_eq!(u32_to_decimal(u32::MAX), "4294967295");
}

#[test]
fn substring_search() {
    assert!(contains("stat: 'on'", "'on'"));
    assert!(contains("abc", ""));
    assert!(!contains("abc", "abcd"));
    assert!(!contains("", "a"));
    assert!(contains("ёжик", "жи"));
}

#[test]
fn replace_is_left_to_right_and_non_overlapping() {
    assert_eq!(replace("aaa", "aa", "b"), "ba");
    assert_eq!(replace("1 234.50", " ", ""), "1234.50");
    assert_eq!(replace("no match", "xyz", "q"), "no match");
    assert_eq!(
        replace("http://h/download.php?id=1", "/download.php?", "/details.php?"),
        "http://h/details.php?id=1"
    );
}

#[test]
fn text_equality() {
    assert!(same_text("home", "home"));
    assert!(!same_text("home", "Home"));
}

#[test]
fn printed_numbers_parse_back() {
    for n in [0u32, 9, 10, 99, 100, 65535, 2147483647] {
        assert_eq!(parse_i32(&u32_to_decimal(n)), Some(n as i32));
    }
    assert_eq!(parse_i32(&u32_to_decimal(2147483648)), None);
}

#[test]
fn replace_with_empty_pattern_matches_std() {
    for (s, to) in [("ab", "x"), ("", "x"), ("жё", "-"), ("abc", "")] {
        assert_eq!(replace(s, "", to), s.replace("", to));
    }
    assert_eq!(replace("ab", "", "x"), "xaxbx");
}
