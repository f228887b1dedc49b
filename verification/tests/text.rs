use chat_relay::text::{chars_of, is_whitespace_char, trimmed};

#[test]
fn white_space_is_what_the_standard_library_calls_white_space() {
    let mut code: u32 = 0;
    while code <= 0x10ffff {
        if let Some(c) = char::from_u32(code) {
            assert_eq!(is_whitespace_char(c), c.is_whitespace(), "U+{:04X}", code);
        }
        code += 1;
    }
}

#[test]
fn trimmed_takes_white_space_off_both_ends() {
    assert_eq!(trimmed("  hello world \t"), "hello world");
    assert_eq!(trimmed("hello"), "hello");
    assert_eq!(trimmed(" \u{a0}\u{3000}x\u{2028}"), "x");
}

#[test]
fn trimmed_of_white_space_is_empty() {
    assert_eq!(trimmed(""), "");
    assert_eq!(trimmed("   "), "");
    assert_eq!(trimmed("\r\n"), "");
}

#[test]
fn trimmed_agrees_with_the_standard_library() {
    let samples = [
        "", " ", "a", " a", "a ", " a b ", "\t\ttab\t", "\u{85}x\u{85}", "\u{200b}zero width\u{200b}",
        "\u{1680}ogham\u{1680}", "\u{180e}mongolian\u{180e}", "  \u{feff}bom  ",
    ];
    for s in samples {
        assert_eq!(trimmed(s), s.trim());
    }
}

#[test]
fn the_characters_of_a_text_come_in_order() {
    assert_eq!(chars_of("héllo"), vec!['h', 'é', 'l', 'l', 'o']);
    assert_eq!(chars_of(""), Vec::<char>::new());
}
