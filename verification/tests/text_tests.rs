use snm::text::{chars_of, find, parse_i32, str_equal, str_less};

#[test]
fn chars_of_keeps_every_character() {
    assert_eq!(chars_of(""), Vec::<char>::new());
    assert_eq!(chars_of("añ中"), vec!['a', 'ñ', '中']);
}

#[test]
fn find_first_occurrence() {
    let hay: Vec<char> = "abcabcabc".chars().collect();
    let needle: Vec<char> = "bc".chars().collect();
    assert_eq!(find(&hay, &needle, 0), Some(1));
    assert_eq!(find(&hay, &needle, 1), Some(1));
    assert_eq!(find(&hay, &needle, 2), Some(4));
    assert_eq!(find(&hay, &needle, 8), None);
    assert_eq!(find(&hay, &needle, 100), None);
}

#[test]
fn find_needle_longer_than_hay() {
    let hay: Vec<char> = "ab".chars().collect();
    let needle: Vec<char> = "abc".chars().collect();
    assert_eq!(find(&hay, &needle, 0), None);
}

#[test]
fn find_empty_needle_stands_everywhere() {
    let hay: Vec<char> = "ab".chars().collect();
    let needle: Vec<char> = Vec::new();
    assert_eq!(find(&hay, &needle, 0), Some(0));
    assert_eq!(find(&hay, &needle, 2), Some(2));
    assert_eq!(find(&hay, &needle, 3), None);
}

#[test]
fn str_less_is_the_order_of_str() {
    let words = ["", "a", "B", "ab", "abc", "b", "é", "中", "zz", "Z"];
    for a in words.iter() {
        for b in words.iter() {
            assert_eq!(str_less(a, b), a < b, "{:?} {:?}", a, b);
        }
    }
}

#[test]
fn str_equal_compares_characters() {
    assert!(str_equal("", ""));
    assert!(str_equal("guest", "guest"));
    assert!(!str_equal("guest", "Guest"));
    assert!(!str_equal("guest", "guests"));
}

#[test]
fn parse_i32_reads_signed_decimals() {
    assert_eq!(parse_i32("0"), Some(0));
    assert_eq!(parse_i32("-67"), Some(-67));
    assert_eq!(parse_i32("+5"), Some(5));
    assert_eq!(parse_i32("007"), Some(7));
    assert_eq!(parse_i32("2147483647"), Some(i32::MAX));
    assert_eq!(parse_i32("-2147483648"), Some(i32::MIN));
}

#[test]
fn parse_i32_refuses_what_is_no_number() {
    assert_eq!(parse_i32(""), None);
    assert_eq!(parse_i32("-"), None);
    assert_eq!(parse_i32("+"), None);
    assert_eq!(parse_i32(" 5"), None);
    assert_eq!(parse_i32("5 "), None);
    assert_eq!(parse_i32("12a"), None);
    assert_eq!(parse_i32("--5"), None);
    assert_eq!(parse_i32("2147483648"), None);
    assert_eq!(parse_i32("-2147483649"), None);
    assert_eq!(parse_i32("99999999999999999999999"), None);
}

#[test]
fn parse_i32_agrees_with_std() {
    for text in ["1", "-1", "+0", "-0", "42", "x", "4 2", "١٢", "2147483647", "2147483648"] {
        assert_eq!(parse_i32(text), text.parse::<i32>().ok(), "{:?}", text);
    }
}
