use punch::text::{char_is_white_space, same_text, trim};

#[test]
fn trim_removes_white_space_at_both_ends_only() {
    assert_eq!(trim("  a b  "), "a b");
    assert_eq!(trim("a b"), "a b");
    assert_eq!(trim("\n\t x"), "x");
    assert_eq!(trim("x \r\n"), "x");
    assert_eq!(trim(""), "");
    assert_eq!(trim(" \t\n "), "");
    assert_eq!(trim("\u{2003}é\u{3000}"), "é");
    assert_eq!(trim("\u{200b}x"), "\u{200b}x");
}

#[test]
fn trim_agrees_with_the_standard_library() {
    for text in ["", " ", "in", " in", "in ", "\u{85}in\u{a0}", "\u{1680}a\u{2028}b\u{2029}", "\u{202f}\u{205f}", "\u{feff}x\u{feff}", "\u{180e}x"] {
        assert_eq!(trim(text), text.trim());
    }
}

#[test]
fn white_space_is_what_the_standard_library_takes_for_it() {
    let mut code: u32 = 0;
    while code <= 0x10FFFF {
        if let Some(c) = char::from_u32(code) {
            assert_eq!(char_is_white_space(c), c.is_whitespace());
        }
        code += 1;
    }
}

#[test]
fn same_text_compares_characters() {
    assert!(same_text(&"out".to_string(), "out"));
    assert!(!same_text(&"out".to_string(), "out "));
    assert!(!same_text(&"Out".to_string(), "out"));
    assert!(same_text(&String::new(), ""));
}
