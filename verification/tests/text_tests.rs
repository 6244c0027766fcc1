use mcmanager::text::{decimal_string, split_lines, starts_with, trimmed, white_space};

#[test]
fn split_lines_matches_std_lines() {
    let cases = ["", "a", "a\n", "a\r\nb", "a\r\nb\r\n", "\n", "\n\n", "a\rb", "x\r", "one\ntwo\n\nthree", "\r\n"];
    for text in cases {
        let expected: Vec<String> = text.lines().map(|l| l.to_string()).collect();
        assert_eq!(split_lines(text), expected, "text {:?}", text);
    }
}

#[test]
fn split_lines_concrete() {
    assert_eq!(split_lines("a\r\nb\n"), vec!["a".to_string(), "b".to_string()]);
    assert_eq!(split_lines("\n"), vec!["".to_string()]);
    assert!(split_lines("").is_empty());
}

#[test]
fn trimmed_matches_std_trim() {
    let cases = ["  list  ", "\tsay hi\n", "", "   ", "\u{3000}op me\u{a0}", "a b", "\u{85}x\u{2028}", "\u{200b}x"];
    for text in cases {
        assert_eq!(trimmed(text), text.trim(), "text {:?}", text);
    }
}

#[test]
fn white_space_matches_std() {
    for v in 0u32..0x3100 {
        if let Some(c) = char::from_u32(v) {
            assert_eq!(white_space(c), c.is_whitespace(), "char {:x}", v);
        }
    }
}

#[test]
fn starts_with_prefixes() {
    assert!(starts_with("HTTP/1.1 101 Switching Protocols\r\n", "HTTP/1.1 101"));
    assert!(!starts_with("HTTP/1.1 401 Unauthorized\r\n", "HTTP/1.1 101"));
    assert!(!starts_with("HTTP", "HTTP/1.1 101"));
    assert!(starts_with("abc", ""));
}

#[test]
fn decimal_string_formats_like_display() {
    for n in [0u16, 7, 10, 80, 443, 25575, 65535] {
        assert_eq!(decimal_string(n), n.to_string());
    }
}
