use redirector::numbers::{parse_i32, parse_u64, push_decimal};
use redirector::text::{find_first, same_text, split_on_spaces};

#[test]
fn split_keeps_empty_pieces() {
    assert_eq!(split_on_spaces("a  b "), vec!["a", "", "b", ""]);
    assert_eq!(split_on_spaces(""), vec![""]);
    assert_eq!(split_on_spaces(" "), vec!["", ""]);
    assert_eq!(split_on_spaces("one"), vec!["one"]);
}

#[test]
fn split_matches_std_split() {
    for s in ["start a 1:2", "  x  ", "é ü", "", "a b c d"] {
        let expected: Vec<String> = s.split(" ").map(|p| p.to_string()).collect();
        assert_eq!(split_on_spaces(s), expected);
    }
}

#[test]
fn find_first_counts_characters() {
    assert_eq!(find_first("ab:c:d", ':'), Some(2));
    assert_eq!(find_first("é:", ':'), Some(1));
    assert_eq!(find_first("abc", ':'), None);
}

#[test]
fn same_text_compares_characters() {
    assert!(same_text("stop", "stop"));
    assert!(!same_text("stop", "stops"));
    assert!(!same_text("stop", "Stop"));
}

#[test]
fn parse_i32_matches_std() {
    for s in [
        "0", "-0", "+7", "-2147483648", "2147483647", "2147483648", "-2147483649", "", "-", "+",
        "12a", " 1", "1 ", "+-1", "00042", "99999999999999999999",
    ] {
        assert_eq!(parse_i32(s), s.parse::<i32>().ok(), "input {:?}", s);
    }
}

#[test]
fn parse_u64_matches_std() {
    for s in [
        "0", "+0", "-0", "200", "18446744073709551615", "18446744073709551616", "", "+", "-1",
        "1.5", "007",
    ] {
        assert_eq!(parse_u64(s), s.parse::<u64>().ok(), "input {:?}", s);
    }
}

#[test]
fn decimal_matches_display() {
    for n in [0, 7, 10, 1001, -1, -42, i32::MIN, i32::MAX] {
        let mut s = String::from("x");
        push_decimal(&mut s, n);
        assert_eq!(s, format!("x{}", n));
    }
}

#[test]
fn decimal_reads_back() {
    for n in [0, 65535, -17, i32::MIN, i32::MAX] {
        let mut s = String::new();
        push_decimal(&mut s, n);
        assert_eq!(parse_i32(&s), Some(n));
    }
}
