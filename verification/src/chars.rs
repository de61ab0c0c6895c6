//! Character classes of the notation: whitespace, brackets, delimiters.
//!
//! Each class is a `spec` predicate over one character; the executable
//! predicates compute exactly these.

use vstd::prelude::*;

verus! {

/// `c` carries the Unicode `White_Space` property: one of the 25 code points
/// U+0009..U+000D, U+0020, U+0085, U+00A0, U+1680, U+2000..U+200A, U+2028,
/// U+2029, U+202F, U+205F and U+3000.
pub open spec fn whitespace(c: char) -> bool {
    ||| '\u{9}' <= c <= '\u{D}'
    ||| c == ' '
    ||| c == '\u{85}'
    ||| c == '\u{A0}'
    ||| c == '\u{1680}'
    ||| '\u{2000}' <= c <= '\u{200A}'
    ||| c == '\u{2028}'
    ||| c == '\u{2029}'
    ||| c == '\u{202F}'
    ||| c == '\u{205F}'
    ||| c == '\u{3000}'
}

/// `c` is an ASCII decimal digit.
pub open spec fn digit(c: char) -> bool {
    '0' <= c <= '9'
}

/// `c` opens a list.
pub open spec fn open_paren(c: char) -> bool {
    c == '(' || c == '[' || c == '{'
}

/// `c` closes a list.
pub open spec fn close_paren(c: char) -> bool {
    c == ')' || c == ']' || c == '}'
}

/// `open` and `close` are the two halves of one kind of bracket.
pub open spec fn matching_parens(open: char, close: char) -> bool {
    ||| open == '(' && close == ')'
    ||| open == '[' && close == ']'
    ||| open == '{' && close == '}'
}

/// `c` ends an unquoted token.
pub open spec fn delimiter(c: char) -> bool {
    whitespace(c) || open_paren(c) || close_paren(c) || c == '"'
}

/// Whether `c` is whitespace.
pub fn is_whitespace(c: char) -> (b: bool)
    ensures
        b == whitespace(c),
{
    ('\u{9}' <= c && c <= '\u{D}') || c == ' ' || c == '\u{85}' || c == '\u{A0}' || c == '\u{1680}'
        || ('\u{2000}' <= c && c <= '\u{200A}') || c == '\u{2028}' || c == '\u{2029}' || c
        == '\u{202F}' || c == '\u{205F}' || c == '\u{3000}'
}

/// Whether `c` is an ASCII decimal digit.
pub fn is_digit(c: char) -> (b: bool)
    ensures
        b == digit(c),
{
    '0' <= c && c <= '9'
}

/// The bracket and delimiter tests, as methods of `char`.
pub trait CharExt: Sized {
    fn is_open_paren(self) -> bool;

    fn is_close_paren(self) -> bool;

    fn is_matching_paren(self, c2: Self) -> bool;

    fn is_delimiter(self) -> bool;
}

impl CharExt for char {
    fn is_open_paren(self) -> (b: bool)
        ensures
            b == open_paren(self),
    {
        self == '(' || self == '[' || self == '{'
    }

    fn is_close_paren(self) -> (b: bool)
        ensures
            b == close_paren(self),
    {
        self == ')' || self == ']' || self == '}'
    }

    /// `self` is taken as the opening bracket, `c2` as the closing one.
    fn is_matching_paren(self, c2: char) -> (b: bool)
        ensures
            b == matching_parens(self, c2),
    {
        match self {
            '(' => c2 == ')',
            '[' => c2 == ']',
            '{' => c2 == '}',
            _ => false,
        }
    }

    fn is_delimiter(self) -> (b: bool)
        ensures
            b == delimiter(self),
    {
        is_whitespace(self) || self.is_open_paren() || self.is_close_paren() || self == '"'
    }
}

} // verus!
