use native_shell::chars::{
    chars_of, decimal_string, decode_text, encode_text, lines, parse_u64,
    same_ignoring_ascii_case, same_text, split, string_of, text_slice, trim,
};

#[test]
fn lines_end_as_in_a_string() {
    for text in ["", "a", "a\n", "a\r\nb", "\n\n", "a\rb\n", "a\r", "\r\n", "x\n\ny"] {
        let expected: Vec<&str> = text.lines().collect();
        assert_eq!(lines(text), expected);
    }
}

#[test]
fn splitting_keeps_empty_pieces() {
    for text in ["", "a", "a,b", ",", "a,,b,", "\u{e9},\u{1f600}"] {
        let expected: Vec<&str> = text.split(',').collect();
        assert_eq!(split(text, ','), expected);
    }
}

#[test]
fn trimming_takes_all_white_space() {
    for text in ["", "  ", " a b ", "\t\u{a0}x\u{2003}\n", "\u{85}\u{3000}y", "\u{200b}z"] {
        assert_eq!(trim(text), text.trim());
    }
}

#[test]
fn numbers_are_decimal() {
    for number in [0, 7, 10, 909, u64::MAX] {
        assert_eq!(decimal_string(number), number.to_string());
        assert_eq!(parse_u64(&number.to_string()), Some(number));
    }
    for text in ["", "+", "-1", " 1", "1 ", "18446744073709551616", "1a", "++1", "0x1"] {
        assert_eq!(parse_u64(text), None);
        assert!(text.parse::<u64>().is_err());
    }
    assert_eq!(parse_u64("+0012"), Some(12));
}

#[test]
fn case_is_ignored_in_ascii_only() {
    assert!(same_ignoring_ascii_case("AuTo", "aUtO"));
    assert!(!same_ignoring_ascii_case("auto", "aut"));
    assert!(!same_ignoring_ascii_case("\u{c9}", "\u{e9}"));
    assert!(!same_ignoring_ascii_case("@[", "`{"));
    assert!(same_text("\u{e9}", "\u{e9}"));
    assert!(!same_text("a", "A"));
}

#[test]
fn text_and_bytes() {
    assert_eq!(decode_text(b"a\xc3\xa9"), Some("a\u{e9}"));
    assert_eq!(decode_text(b"\xff"), None);
    assert_eq!(decode_text(b"\xed\xa0\x80"), None);
    assert_eq!(encode_text("a\u{e9}"), b"a\xc3\xa9");
    assert_eq!(text_slice("a\u{e9}b\u{1f600}", 1, 4), "\u{e9}b");
    assert_eq!(text_slice("abc", 1, 1), "");
    assert_eq!(text_slice("abc", 0, 3), "abc");
    let chars = chars_of("a\u{e9}b");
    assert_eq!(chars, ['a', '\u{e9}', 'b']);
    assert_eq!(string_of(&chars, 1, 3), "\u{e9}b");
}

#[test]
fn white_space_is_that_of_unicode() {
    for c in (0..0x1_0000).filter_map(char::from_u32) {
        let text = format!("{c}x{c}");
        assert_eq!(trim(&text), text.trim());
    }
}
