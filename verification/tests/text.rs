use vcam_proxy::text;

fn chars(s: &str) -> Vec<char> {
    s.chars().collect()
}

fn strings(parts: &[Vec<char>]) -> Vec<String> {
    parts.iter().map(|p| p.iter().collect()).collect()
}

#[test]
fn pieces_match_std() {
    for s in ["", "a", "a,b", ",", "a,,b,", "x\ny\r\nz", "\n", "a\r", "  a\t b\u{3000}c  "] {
        let c = chars(s);
        assert_eq!(strings(&text::split(&c, ',')), s.split(',').collect::<Vec<_>>());
        assert_eq!(strings(&text::lines(&c)), s.lines().collect::<Vec<_>>());
        assert_eq!(strings(&text::words(&c)), s.split_whitespace().collect::<Vec<_>>());
        assert_eq!(text::trim(&c).iter().collect::<String>(), s.trim());
    }
}

#[test]
fn quotes_are_stripped_like_std() {
    for s in ["", "\"\"", "\"a\"", "a\"b", "\"\"a\""] {
        let c = chars(s);
        assert_eq!(text::unquote(&c).iter().collect::<String>(), s.trim_matches('"'));
    }
}

#[test]
fn searching_matches_std() {
    for (s, needle) in [("abc", "b"), ("abc", ""), ("", "a"), ("aab", "ab"), ("ab", "abc")] {
        let c = chars(s);
        assert_eq!(text::contains(&c, needle), s.contains(needle));
        assert_eq!(text::starts_with(&c, needle), s.starts_with(needle));
        let stripped = text::strip_prefix(&c, needle).map(|v| v.iter().collect::<String>());
        assert_eq!(stripped.as_deref(), s.strip_prefix(needle));
    }
    assert!(text::same_text("é", "é") && !text::same_text("a", "b"));
}

#[test]
fn numbers_match_std() {
    for s in ["", "0", "007", "+5", "-5", "+", "-", "4294967295", "4294967296", "1a", "--1", "-+1"] {
        assert_eq!(text::parse_u32(&chars(s)), s.parse::<u32>().ok(), "{s}");
        assert_eq!(text::parse_i32(&chars(s)), s.parse::<i32>().ok(), "{s}");
    }
    assert_eq!(text::parse_i32(&chars("-2147483648")), Some(i32::MIN));
    assert_eq!(text::parse_i32(&chars("-2147483649")), None);
    for n in [0u64, 9, 10, 12345, u64::MAX] {
        assert_eq!(text::decimal(n), n.to_string());
        assert_eq!(text::parse_unsigned(&chars(&text::decimal(n)), u64::MAX), Some(n));
    }
    for n in [0i32, -1, i32::MIN, i32::MAX] {
        assert_eq!(text::signed_decimal(n), n.to_string());
    }
}

#[test]
fn formatting_matches_std() {
    for s in ["", "abc", "a very long text indeed"] {
        assert_eq!(text::pad_right(s, 10), format!("{s:<10}"));
    }
    for n in [0u32, 10, 0xdead_beef] {
        assert_eq!(text::hex(n, 8), format!("{n:08x}"));
    }
    for n in [0u64, 42, 99999] {
        assert_eq!(text::decimal_padded(n, 4), format!("{n:04}"));
    }
    assert_eq!(text::join(&vec!["a".to_string(), "b".to_string()], ", "), "a, b");
    assert_eq!(text::join(&Vec::new(), ", "), "");
}
