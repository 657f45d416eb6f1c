use gfresh::text::{
    chars_of, concat_strs, contains_str, decimal_string, is_whitespace, join_spaced_strings, lines_of,
    parse_u32, split_whitespace, str_eq, strip_prefix, trim_end_str, trim_start_str, trim_str,
    IntErrorKind,
};

#[test]
fn whitespace_matches_std() {
    for c in ['\t', '\n', '\u{0B}', '\u{0C}', '\r', ' ', '\u{85}', '\u{A0}', '\u{1680}', '\u{2000}', '\u{200A}', '\u{2028}', '\u{2029}', '\u{202F}', '\u{205F}', '\u{3000}'] {
        assert!(is_whitespace(c), "{c:?}");
        assert!(c.is_whitespace());
    }
    for c in ['a', '0', '\u{200B}', '\u{180E}', '\u{FEFF}', '*', '\u{1F}'] {
        assert_eq!(is_whitespace(c), c.is_whitespace(), "{c:?}");
    }
    for n in 0u32..0x3100 {
        if let Some(c) = char::from_u32(n) {
            assert_eq!(is_whitespace(c), c.is_whitespace(), "{n:#x}");
        }
    }
}

#[test]
fn trimming_matches_std() {
    for s in ["", "  ", " a b ", "\u{3000}x\u{85}", "x", "\r\n", "a\n"] {
        assert_eq!(trim_str(s), s.trim());
        assert_eq!(trim_end_str(s), s.trim_end());
        assert_eq!(trim_start_str(s), s.trim_start());
    }
}

#[test]
fn words_and_lines_match_std() {
    for s in ["", "a", "  a  b\tc\n", "\u{A0}é ü\u{2003}", "one"] {
        let want: Vec<String> = s.split_whitespace().map(String::from).collect();
        assert_eq!(split_whitespace(s), want);
    }
    for s in ["", "a", "a\n", "a\r\nb", "\n", "a\n\nb\n", "x\r\n\r\n", "tail"] {
        let want: Vec<String> = s.lines().map(String::from).collect();
        assert_eq!(lines_of(s), want, "{s:?}");
    }
}

#[test]
fn substrings() {
    assert!(contains_str("abc", ""));
    assert!(contains_str("abc", "bc"));
    assert!(!contains_str("ab", "abc"));
    assert!(!contains_str("", "a"));
    assert!(str_eq("ä", "ä"));
    assert!(!str_eq("a", "ab"));
    assert_eq!(strip_prefix("refs/x", "refs/"), Some("x".to_string()));
    assert_eq!(strip_prefix("ref", "refs/"), None);
    assert_eq!(concat_strs("ab", "çd"), "abçd");
    assert_eq!(join_spaced_strings(&vec!["a".to_string(), "b c".to_string()]), "a b c");
    assert_eq!(join_spaced_strings(&vec![]), "");
    assert_eq!(chars_of("héllo"), vec!['h', 'é', 'l', 'l', 'o']);
}

#[test]
fn decimal_numbers() {
    assert_eq!(decimal_string(0), "0");
    assert_eq!(decimal_string(7), "7");
    assert_eq!(decimal_string(10), "10");
    assert_eq!(decimal_string(u64::MAX), u64::MAX.to_string());
    for n in [0u32, 1, 9, 10, 99, 100, 12345, u32::MAX] {
        assert_eq!(parse_u32(&decimal_string(n as u64)), Ok(n));
    }
}

#[test]
fn parsing_matches_std() {
    for s in ["", "+", "-", "0", "+5", "-5", "007", "4294967295", "4294967296", "99999999999x", "12x", "x", " 1", "1 ", "++1"] {
        let want = s.parse::<u32>().map_err(|e| match e.kind() {
            std::num::IntErrorKind::Empty => IntErrorKind::Empty,
            std::num::IntErrorKind::InvalidDigit => IntErrorKind::InvalidDigit,
            std::num::IntErrorKind::PosOverflow => IntErrorKind::PosOverflow,
            _ => unreachable!(),
        });
        assert_eq!(parse_u32(s), want, "{s:?}");
    }
}
