use cbnb_node::text::{
    char_is_ws,
    join_strings, parse_i64, split_on, split_whitespace, str_eq, take_chars, trim, trim_newlines,
    u64_to_decimal,
};

fn strings(v: &[&str]) -> Vec<String> {
    v.iter().map(|s| s.to_string()).collect()
}

#[test]
fn split_whitespace_fields() {
    assert_eq!(split_whitespace("  cpu  1 2\t3\n"), strings(&["cpu", "1", "2", "3"]));
    assert_eq!(split_whitespace(""), strings(&[]));
    assert_eq!(split_whitespace("   "), strings(&[]));
    assert_eq!(split_whitespace("a\u{a0}b\u{3000}c"), strings(&["a", "b", "c"]));
}

#[test]
fn split_whitespace_matches_std() {
    let samples = [
        "", " ", "x", " x ", "eth0: 1 2 3", "a\r\nb", "\u{2028}z\u{85}y", "é è\tü",
    ];
    for s in samples.iter() {
        let expected: Vec<String> = s.split_whitespace().map(|x| x.to_string()).collect();
        let got = split_whitespace(s);
        assert_eq!(got, expected);
        for f in got.iter() {
            assert!(!f.is_empty() && !f.chars().any(|c| c.is_whitespace()));
        }
    }
}

#[test]
fn split_on_separator() {
    assert_eq!(split_on("a::b", ':'), strings(&["a", "", "b"]));
    assert_eq!(split_on("", ':'), strings(&[""]));
    assert_eq!(split_on("model name\t: Xeon", ':'), strings(&["model name\t", " Xeon"]));
    for s in ["a b  c", " lead", "trail ", "", "one"].iter() {
        let expected: Vec<String> = s.split(' ').map(|x| x.to_string()).collect();
        let got = split_on(s, ' ');
        assert_eq!(got, expected);
        assert_eq!(got.join(" "), s.to_string());
    }
}

#[test]
fn trimming() {
    assert_eq!(trim("  x y \n"), "x y");
    assert_eq!(trim("\t\u{a0}"), "");
    assert_eq!(trim_newlines("\n\nab\n"), "ab");
    assert_eq!(trim_newlines(" \nab"), " \nab");
    assert_eq!(trim_newlines("\n"), "");
}

#[test]
fn take_first_chars() {
    assert_eq!(take_chars("12.3456789", 5), "12.34");
    assert_eq!(take_chars("ab", 5), "ab");
    assert_eq!(take_chars("ééééééé", 5), "ééééé");
    assert_eq!(take_chars("12.3456789", 5), format!("{:.5}", "12.3456789"));
}

#[test]
fn parse_i64_values() {
    assert_eq!(parse_i64("42"), Some(42));
    assert_eq!(parse_i64("-42"), Some(-42));
    assert_eq!(parse_i64("+7"), Some(7));
    assert_eq!(parse_i64("007"), Some(7));
    assert_eq!(parse_i64(""), None);
    assert_eq!(parse_i64("-"), None);
    assert_eq!(parse_i64("+"), None);
    assert_eq!(parse_i64("1a"), None);
    assert_eq!(parse_i64(" 1"), None);
    assert_eq!(parse_i64("9223372036854775807"), Some(i64::MAX));
    assert_eq!(parse_i64("9223372036854775808"), None);
    assert_eq!(parse_i64("-9223372036854775808"), Some(i64::MIN));
    assert_eq!(parse_i64("-9223372036854775809"), None);
    assert_eq!(parse_i64("00000000000000000000000000001"), Some(1));
}

#[test]
fn parse_i64_matches_std() {
    let samples = [
        "0", "-0", "+0", "12", "-12", "+-1", "--1", "1-", "99999999999999999999", "٣", "1 ",
        "18446744073709551615", "-9223372036854775807", "12e3", "0x10",
    ];
    for s in samples.iter() {
        assert_eq!(parse_i64(s), s.parse::<i64>().ok(), "input {:?}", s);
    }
}

#[test]
fn decimal_rendering() {
    assert_eq!(u64_to_decimal(0), "0");
    assert_eq!(u64_to_decimal(7), "7");
    assert_eq!(u64_to_decimal(10), "10");
    assert_eq!(u64_to_decimal(1234567890), "1234567890");
    assert_eq!(u64_to_decimal(u64::MAX), "18446744073709551615");
    for n in [1u64, 9, 99, 100, 101, 65535, 1 << 40].iter() {
        assert_eq!(u64_to_decimal(*n), n.to_string());
    }
}

#[test]
fn joining_and_equality() {
    assert_eq!(join_strings(&strings(&["a", "b", "c"]), ", "), "a, b, c");
    assert_eq!(join_strings(&strings(&[]), ", "), "");
    assert_eq!(join_strings(&strings(&["x"]), ", "), "x");
    assert!(str_eq("TEST", "TEST"));
    assert!(!str_eq("TEST", "TESTS"));
    assert!(!str_eq("é", "e"));
}

#[test]
fn whitespace_class_matches_std() {
    for u in 0u32..0x11_0000 {
        if let Some(c) = char::from_u32(u) {
            assert_eq!(char_is_ws(c), c.is_whitespace(), "char {:?}", c);
        }
    }
}
