use sexp_reader::chars::{is_digit, is_whitespace};
use sexp_reader::CharExt;

#[test]
fn open_parens_are_the_three_opening_brackets() {
    for c in ['(', '[', '{'] {
        assert!(c.is_open_paren());
    }
    for c in [')', ']', '}', 'a', ' ', '"', '<', '0'] {
        assert!(!c.is_open_paren());
    }
}

#[test]
fn close_parens_are_the_three_closing_brackets() {
    for c in [')', ']', '}'] {
        assert!(c.is_close_paren());
    }
    for c in ['(', '[', '{', 'a', ' ', '"', '>', '0'] {
        assert!(!c.is_close_paren());
    }
}

#[test]
fn brackets_match_their_own_kind_only() {
    let opens = ['(', '[', '{'];
    let closes = [')', ']', '}'];
    for (i, open) in opens.iter().enumerate() {
        for (j, close) in closes.iter().enumerate() {
            assert_eq!(open.is_matching_paren(*close), i == j);
        }
    }
}

#[test]
fn matching_takes_the_opening_bracket_first() {
    assert!(!')'.is_matching_paren('('));
    assert!(!'('.is_matching_paren('('));
    assert!(!')'.is_matching_paren(')'));
    assert!(!'a'.is_matching_paren(')'));
    assert!(!'('.is_matching_paren('a'));
    assert!(!'a'.is_matching_paren('a'));
}

#[test]
fn delimiters_are_whitespace_brackets_and_the_quote() {
    for c in [' ', '\n', '\t', '\r', '(', ')', '[', ']', '{', '}', '"', '\u{3000}'] {
        assert!(c.is_delimiter());
    }
    for c in ['a', 'Z', '0', '-', '\\', '\'', '<', '>', ';', '\u{0}'] {
        assert!(!c.is_delimiter());
    }
}

#[test]
fn whitespace_is_the_unicode_property() {
    let mut count = 0;
    for code in 0..=0x10FFFFu32 {
        if let Some(c) = char::from_u32(code) {
            assert_eq!(is_whitespace(c), c.is_whitespace(), "U+{:04X}", code);
            if is_whitespace(c) {
                count += 1;
            }
        }
    }
    assert_eq!(count, 25);
}

#[test]
fn whitespace_edges() {
    assert!(is_whitespace('\u{9}'));
    assert!(is_whitespace('\u{D}'));
    assert!(!is_whitespace('\u{8}'));
    assert!(!is_whitespace('\u{E}'));
    assert!(is_whitespace('\u{2000}'));
    assert!(is_whitespace('\u{200A}'));
    assert!(!is_whitespace('\u{200B}'));
    assert!(!is_whitespace('\u{1FFF}'));
    assert!(is_whitespace('\u{A0}'));
    assert!(!is_whitespace('\u{180E}'));
}

#[test]
fn digits_are_ascii_digits() {
    for code in 0..=0x10FFFFu32 {
        if let Some(c) = char::from_u32(code) {
            assert_eq!(is_digit(c), c.is_digit(10), "U+{:04X}", code);
        }
    }
    assert!(is_digit('0'));
    assert!(is_digit('9'));
    assert!(!is_digit('/'));
    assert!(!is_digit(':'));
    assert!(!is_digit('\u{0661}'));
}
