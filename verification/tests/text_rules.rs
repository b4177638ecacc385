use ff::utils::text::{
    contains_dot, equals_ignoring_case, is_alphanumeric, is_blank, is_digit, same_text,
    strip_leading_dots, to_lower, to_lowercase, trim,
};

#[test]
fn character_classes() {
    for c in '0'..='9' {
        assert!(is_digit(c));
        assert!(is_alphanumeric(c));
    }
    for c in ('a'..='z').chain('A'..='Z') {
        assert!(!is_digit(c));
        assert!(is_alphanumeric(c));
    }
    for c in ['/', ':', '@', '[', '`', '{', '_', '.', '-', ' ', '\u{e9}', '\u{b2}', '\u{663}'] {
        assert!(!is_digit(c));
        assert!(!is_alphanumeric(c));
    }
    for c in [' ', '\t', '\n', '\u{b}', '\u{c}', '\r'] {
        assert!(is_blank(c));
    }
    for c in ['\u{8}', '\u{e}', '\u{1f}', '!', 'a', '\u{a0}', '\u{85}', '\u{2003}'] {
        assert!(!is_blank(c));
    }
}

#[test]
fn lower_case_of_characters() {
    assert_eq!(to_lower('A'), 'a');
    assert_eq!(to_lower('Z'), 'z');
    assert_eq!(to_lower('m'), 'm');
    assert_eq!(to_lower('@'), '@');
    assert_eq!(to_lower('['), '[');
    assert_eq!(to_lower('5'), '5');
    assert_eq!(to_lower('\u{c9}'), '\u{c9}');
}

#[test]
fn lower_case_of_texts() {
    assert_eq!(to_lowercase("CONVERT"), "convert");
    assert_eq!(to_lowercase(".AvI"), ".avi");
    assert_eq!(to_lowercase("a_B-9.Z"), "a_b-9.z");
    assert_eq!(to_lowercase(""), "");
    assert_eq!(to_lowercase("\u{c9}T\u{c9}"), "\u{e9}t\u{e9}");
    assert_eq!(to_lowercase("\u{212a}"), "k");
}

#[test]
fn dots_in_texts() {
    assert!(contains_dot("a.b"));
    assert!(contains_dot("."));
    assert!(contains_dot("\u{e9}."));
    assert!(!contains_dot(""));
    assert!(!contains_dot("ab"));
    assert_eq!(strip_leading_dots(".avi"), "avi");
    assert_eq!(strip_leading_dots("...avi"), "avi");
    assert_eq!(strip_leading_dots("avi."), "avi.");
    assert_eq!(strip_leading_dots(".a.b"), "a.b");
    assert_eq!(strip_leading_dots("..."), "");
    assert_eq!(strip_leading_dots(""), "");
}

#[test]
fn equality_of_texts() {
    assert!(same_text("", ""));
    assert!(same_text("to", "to"));
    assert!(same_text("\u{e9}t\u{e9}", "\u{e9}t\u{e9}"));
    assert!(!same_text("to", "To"));
    assert!(!same_text("to", "too"));
    assert!(!same_text("too", "to"));
    assert!(!same_text("ab", "ac"));
    assert!(equals_ignoring_case("QUIT", "quit"));
    assert!(equals_ignoring_case("eXiT", "Exit"));
    assert!(equals_ignoring_case("", ""));
    assert!(!equals_ignoring_case("quit", "quits"));
    assert!(!equals_ignoring_case("quit", "quid"));
    assert!(!equals_ignoring_case("\u{c9}", "\u{e9}"));
    assert!(!equals_ignoring_case("@", "`"));
}

#[test]
fn trimming() {
    assert_eq!(trim("  quit \n"), "quit");
    assert_eq!(trim("a b"), "a b");
    assert_eq!(trim("\t a  b \r\n"), "a  b");
    assert_eq!(trim(""), "");
    assert_eq!(trim(" \t\n"), "");
    assert_eq!(trim("\u{a0}x\u{2003}"), "x");
    assert_eq!(trim("\u{e9} "), "\u{e9}");
    for text in ["  quit \n", "", " ", "x", " \u{a0}a\u{a0}b\u{3000}", "\u{200b} a"] {
        assert_eq!(trim(text), text.trim());
    }
}
