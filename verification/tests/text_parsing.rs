use akasha::text::{
    chars_of, contains_chars, decimal_string, lines_of, parse_unsigned_chars, split_on_chars,
    split_once_chars, trim_chars, IntErrorKind,
};

fn c(s: &str) -> Vec<char> {
    s.chars().collect()
}

fn strs(v: Vec<Vec<char>>) -> Vec<String> {
    v.into_iter().map(|l| l.into_iter().collect()).collect()
}

#[test]
fn decimal_rendering() {
    assert_eq!(decimal_string(0), "0");
    assert_eq!(decimal_string(7), "7");
    assert_eq!(decimal_string(1024), "1024");
    assert_eq!(decimal_string(u64::MAX), u64::MAX.to_string());
}

#[test]
fn parse_matches_std() {
    let cases = ["0", "42", "+42", "", "+", "-", "-1", "12x", "18446744073709551615", "18446744073709551616", "99999999999999999999x", " 1"];
    for case in cases {
        let ours = parse_unsigned_chars(&c(case), 10, u64::MAX);
        let std = case.parse::<u64>();
        match (ours, std) {
            (Ok(a), Ok(b)) => assert_eq!(a, b, "{case}"),
            (Err(e), Err(se)) => assert_eq!(e.message(), se.to_string(), "{case}"),
            (o, s) => panic!("{case}: {o:?} vs {s:?}"),
        }
    }
}

#[test]
fn parse_hex_matches_std() {
    for case in ["ff", "FF", "1a2B", "0", "g", "", "+a", "ffffffffffffffff", "10000000000000000"] {
        let ours = parse_unsigned_chars(&c(case), 16, u64::MAX);
        let std = u64::from_str_radix(case, 16);
        match (ours, std) {
            (Ok(a), Ok(b)) => assert_eq!(a, b, "{case}"),
            (Err(e), Err(se)) => assert_eq!(e.message(), se.to_string(), "{case}"),
            (o, s) => panic!("{case}: {o:?} vs {s:?}"),
        }
    }
}

#[test]
fn parse_error_kinds() {
    assert_eq!(parse_unsigned_chars(&c(""), 10, 100), Err(IntErrorKind::Empty));
    assert_eq!(parse_unsigned_chars(&c("+"), 10, 100), Err(IntErrorKind::InvalidDigit));
    assert_eq!(parse_unsigned_chars(&c("101"), 10, 100), Err(IntErrorKind::PosOverflow));
    assert_eq!(parse_unsigned_chars(&c("100"), 10, 100), Ok(100));
}

#[test]
fn decimal_then_parse_round_trip() {
    for n in [0u64, 1, 9, 10, 65535, 1 << 40, u64::MAX] {
        let text: Vec<char> = decimal_string(n).chars().collect();
        assert_eq!(parse_unsigned_chars(&text, 10, u64::MAX), Ok(n));
    }
}

#[test]
fn trim_matches_std() {
    for case in ["  a b  ", "\t\r\n x\u{3000}", "", "   ", "\u{85}y\u{a0}", "z"] {
        let t: String = trim_chars(&c(case)).into_iter().collect();
        assert_eq!(t, case.trim(), "{case:?}");
    }
}

#[test]
fn lines_match_std() {
    for case in ["a\r\nb\n", "a\nb", "", "\n", "a\r", "x\n\ny\r\n\r\n", "\r\n"] {
        let ours = strs(lines_of(&c(case)));
        let std: Vec<String> = case.lines().map(|l| l.to_string()).collect();
        assert_eq!(ours, std, "{case:?}");
    }
}

#[test]
fn split_matches_std() {
    for case in ["a;b", "", ";", "a;;b;", "no separator"] {
        let ours = strs(split_on_chars(&c(case), ';'));
        let std: Vec<String> = case.split(';').map(|l| l.to_string()).collect();
        assert_eq!(ours, std, "{case:?}");
    }
    let (k, v) = split_once_chars(&c("key=a=b"), '=');
    assert_eq!(k, c("key"));
    assert_eq!(v, Some(c("a=b")));
    assert_eq!(split_once_chars(&c("key"), '=').1, None);
}

#[test]
fn substring_search() {
    assert!(contains_chars(&c("transfer-encoding: chunked"), &c("chunked")));
    assert!(!contains_chars(&c("chunk"), &c("chunked")));
    assert!(contains_chars(&c("abc"), &c("")));
    assert_eq!(chars_of("héllo"), c("héllo"));
}
