use cracktorio_bot::text::{
    bytes_contain, bytes_start_with, char_is_white_space, cut, find_byte_from, join_texts,
    split_lines, trim_text,
};

#[test]
fn byte_search() {
    assert!(bytes_contain(b"abc[JOIN]x", b"[JOIN]"));
    assert!(!bytes_contain(b"abc[JOI", b"[JOIN]"));
    assert!(bytes_contain(b"abc", b""));
    assert!(bytes_start_with(b"=== Log opened", b"=== Log"));
    assert!(!bytes_start_with(b"==", b"=== Log"));
    assert_eq!(find_byte_from(b"ab cd ef", 3, b' '), 5);
    assert_eq!(find_byte_from(b"abcd", 1, b' '), 4);
}

#[test]
fn cut_between_bytes() {
    assert_eq!(cut("zażółć", 2, 6), "żó");
}

#[test]
fn trim_removes_unicode_white_space() {
    assert_eq!(trim_text("  2.0.55 \n"), "2.0.55");
    assert_eq!(trim_text("\u{3000}\u{a0}x y\u{2003}"), "x y");
    assert_eq!(trim_text(" \t "), "");
    assert_eq!(trim_text(""), "");
    assert!(char_is_white_space('\u{85}'));
    assert!(!char_is_white_space('\u{200b}'));
    for c in ['a', ' ', '\t', '\n', '\u{a0}', '\u{1680}', '\u{2028}', '\u{200b}', 'ż'] {
        assert_eq!(char_is_white_space(c), c.is_whitespace());
    }
}

#[test]
fn join_with_separator() {
    let v = vec!["a".to_string(), "b".to_string(), "c".to_string()];
    assert_eq!(join_texts(&v, " "), "a b c");
    assert_eq!(join_texts(&Vec::new(), " "), "");
    assert_eq!(join_texts(&vec!["x".to_string()], ", "), "x");
}

#[test]
fn split_lines_like_str_split() {
    for s in ["", "a", "a\nb", "a\n", "\n\n", "zażółć\ngęślą\njaźń"] {
        let expected: Vec<String> = s.split('\n').map(|x| x.to_string()).collect();
        assert_eq!(split_lines(s), expected);
    }
}

#[test]
fn lines_rejoin_to_the_text() {
    for s in ["", "a\nb\n", "\n", "zażółć\ngęślą\njaźń", "no newline"] {
        assert_eq!(split_lines(s).join("\n"), s);
    }
}
