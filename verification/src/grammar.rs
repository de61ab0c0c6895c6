//! The grammar, as functions from a text and an offset to what is read there.
//!
//! Each function takes the whole text `s` and the offset `i` of the next unread
//! character, and gives either the value read and the offset at which reading
//! stops, or the fault and the offset at which it is met.

use crate::chars::{close_paren, delimiter, digit, matching_parens, open_paren, whitespace};
use crate::error::Fault;
use crate::sexp::SExpView;
use vstd::prelude::*;

verus! {

/// What reading one production gives.
pub enum Parsed<T> {
    /// `value` was read; `end` is the offset of the next unread character.
    Done { value: T, end: int },
    /// Reading failed with `fault`; `at` is the offset of the next unread
    /// character at that moment.
    Failed { fault: Fault, at: int },
}

impl<T> Parsed<T> {
    /// The offset of the next unread character once reading is over.
    pub open spec fn stop(self) -> int {
        match self {
            Parsed::Done { end, .. } => end,
            Parsed::Failed { at, .. } => at,
        }
    }
}

/// The characters that may begin an expression, as an error message names them.
pub open spec fn expected_any() -> Seq<char> {
    "Any"@
}

/// The characters that may open a list, as an error message names them.
pub open spec fn expected_open() -> Seq<char> {
    "({["@
}

/// The character that opens a string, as an error message names it.
pub open spec fn expected_quote() -> Seq<char> {
    "\""@
}

/// The offset of the first character at or after `i` that is not whitespace,
/// or the length of `s` if there is none.
pub open spec fn skip_whitespace(s: Seq<char>, i: int) -> int
    decreases s.len() - i,
{
    if 0 <= i < s.len() && whitespace(s[i]) {
        skip_whitespace(s, i + 1)
    } else {
        i
    }
}

/// Skipping whitespace from `i` passes whitespace only and stops at the end of
/// the text or at a character that is not whitespace.
pub proof fn lemma_skip_whitespace_stops(s: Seq<char>, i: int)
    ensures
        i <= skip_whitespace(s, i),
        0 <= i <= s.len() ==> skip_whitespace(s, i) <= s.len(),
        forall|k: int| i <= k < skip_whitespace(s, i) ==> 0 <= k < s.len() && whitespace(s[k]),
        0 <= skip_whitespace(s, i) < s.len() ==> !whitespace(s[skip_whitespace(s, i)]),
    decreases s.len() - i,
{
    if 0 <= i < s.len() && whitespace(s[i]) {
        lemma_skip_whitespace_stops(s, i + 1);
    }
}

/// The offset of the first delimiter at or after `i`, or the length of `s` if
/// there is none.
pub open spec fn symbol_end(s: Seq<char>, i: int) -> int
    decreases s.len() - i,
{
    if 0 <= i < s.len() && !delimiter(s[i]) {
        symbol_end(s, i + 1)
    } else {
        i
    }
}

/// A symbol from `i` holds no delimiter and stops at the end of the text or at
/// a delimiter.
pub proof fn lemma_symbol_end_stops(s: Seq<char>, i: int)
    ensures
        i <= symbol_end(s, i),
        0 <= i <= s.len() ==> symbol_end(s, i) <= s.len(),
        forall|k: int| i <= k < symbol_end(s, i) ==> 0 <= k < s.len() && !delimiter(s[k]),
        0 <= symbol_end(s, i) < s.len() ==> delimiter(s[symbol_end(s, i)]),
    decreases s.len() - i,
{
    if 0 <= i < s.len() && !delimiter(s[i]) {
        lemma_symbol_end_stops(s, i + 1);
    }
}

/// The symbol at `i`: the characters up to the next delimiter or the end of
/// the text. It may be empty.
pub open spec fn symbol_at(s: Seq<char>, i: int) -> Parsed<SExpView> {
    Parsed::Done { value: SExpView::Symbol(s.subrange(i, symbol_end(s, i))), end: symbol_end(s, i) }
}

/// The character that `\` followed by `c` stands for.
pub open spec fn unescape(c: char) -> char {
    if c == 'n' {
        '\n'
    } else if c == 't' {
        '\t'
    } else if c == 'r' {
        '\r'
    } else {
        c
    }
}

/// One character of a string's content at `i`: the character itself, or, after
/// a backslash, what the character behind it stands for.
pub open spec fn escaped_char_at(s: Seq<char>, i: int) -> Parsed<char> {
    if !(0 <= i < s.len()) {
        Parsed::Failed { fault: Fault::EarlyEof, at: i }
    } else if s[i] != '\\' {
        Parsed::Done { value: s[i], end: i + 1 }
    } else if i + 1 >= s.len() {
        Parsed::Failed { fault: Fault::EarlyEof, at: i + 1 }
    } else {
        Parsed::Done { value: unescape(s[i + 1]), end: i + 2 }
    }
}

/// The content of a string from `i`, behind the opening quote, up to and
/// including the closing quote.
pub open spec fn string_body_at(s: Seq<char>, i: int) -> Parsed<Seq<char>>
    decreases s.len() - i,
{
    if !(0 <= i < s.len()) {
        Parsed::Failed { fault: Fault::EarlyEof, at: i }
    } else if s[i] == '"' {
        Parsed::Done { value: Seq::empty(), end: i + 1 }
    } else {
        match escaped_char_at(s, i) {
            Parsed::Failed { fault, at } => Parsed::Failed { fault, at },
            Parsed::Done { value: c, end } => match string_body_at(s, end) {
                Parsed::Failed { fault, at } => Parsed::Failed { fault, at },
                Parsed::Done { value: rest, end: stop } => Parsed::Done {
                    value: seq![c] + rest,
                    end: stop,
                },
            },
        }
    }
}

/// The quoted string at `i`.
pub open spec fn string_at(s: Seq<char>, i: int) -> Parsed<SExpView> {
    if !(0 <= i < s.len()) {
        Parsed::Failed { fault: Fault::EarlyEof, at: i }
    } else if s[i] != '"' {
        Parsed::Failed { fault: Fault::WrongChar { found: s[i], expected: expected_quote() }, at: i }
    } else {
        match string_body_at(s, i + 1) {
            Parsed::Failed { fault, at } => Parsed::Failed { fault, at },
            Parsed::Done { value, end } => Parsed::Done { value: SExpView::String(value), end },
        }
    }
}

/// The number at `i`: numbers are not decoded, so nothing is read.
pub open spec fn number_at(s: Seq<char>, i: int) -> Parsed<SExpView> {
    Parsed::Failed { fault: Fault::NotImplemented, at: i }
}

/// The expression at `i`. The first character decides what is read: a list, a
/// number, a string or a symbol. Whitespace is not skipped.
pub open spec fn sexp_at(s: Seq<char>, i: int) -> Parsed<SExpView>
    decreases s.len() - i, 1int,
{
    if !(0 <= i < s.len()) {
        Parsed::Failed { fault: Fault::EarlyEof, at: i }
    } else if open_paren(s[i]) {
        list_at(s, i)
    } else if s[i] == '-' || digit(s[i]) {
        number_at(s, i)
    } else if s[i] == '"' {
        string_at(s, i)
    } else if !whitespace(s[i]) {
        symbol_at(s, i)
    } else {
        Parsed::Failed { fault: Fault::WrongChar { found: s[i], expected: expected_any() }, at: i }
    }
}

/// The list at `i`: an opening bracket, the items, and a closing bracket of
/// the same kind. Reading stops at the closing bracket, which stays unread.
pub open spec fn list_at(s: Seq<char>, i: int) -> Parsed<SExpView>
    decreases s.len() - i, 0int,
{
    if !(0 <= i < s.len()) {
        Parsed::Failed { fault: Fault::EarlyEof, at: i }
    } else if !open_paren(s[i]) {
        Parsed::Failed { fault: Fault::WrongChar { found: s[i], expected: expected_open() }, at: i }
    } else {
        match list_items_at(s, i + 1) {
            Parsed::Failed { fault, at } => Parsed::Failed { fault, at },
            Parsed::Done { value, end } => if !(0 <= end < s.len()) {
                Parsed::Failed { fault: Fault::EarlyEof, at: end }
            } else if matching_parens(s[i], s[end]) {
                Parsed::Done { value, end }
            } else {
                Parsed::Failed { fault: Fault::ParenMismatch { open: s[i], close: s[end] }, at: end }
            },
        }
    }
}

/// The items of a list from `i` on, as a chain of `Cons` cells. Whitespace
/// before each item is skipped; reading stops at the first closing bracket
/// that is met where an item could begin, and leaves it unread.
///
/// An item that does not begin with a closing bracket takes at least one
/// character and stops within the text (`lemma_item_takes_a_character`), so
/// the test on `end` below always succeeds; it is there to show that the
/// definition terminates.
pub open spec fn list_items_at(s: Seq<char>, i: int) -> Parsed<SExpView>
    decreases s.len() - i, 2int,
{
    let j = skip_whitespace(s, i);
    proof {
        lemma_skip_whitespace_stops(s, i);
    }
    if !(0 <= j < s.len()) {
        Parsed::Failed { fault: Fault::EarlyEof, at: j }
    } else if close_paren(s[j]) {
        Parsed::Done { value: SExpView::Nil, end: j }
    } else {
        match sexp_at(s, j) {
            Parsed::Failed { fault, at } => Parsed::Failed { fault, at },
            Parsed::Done { value: head, end } => if !(j < end <= s.len()) {
                Parsed::Failed { fault: Fault::EarlyEof, at: end }
            } else {
                match list_items_at(s, end) {
                    Parsed::Failed { fault, at } => Parsed::Failed { fault, at },
                    Parsed::Done { value: tail, end: stop } => Parsed::Done {
                        value: SExpView::Cons(Box::new(head), Box::new(tail)),
                        end: stop,
                    },
                }
            },
        }
    }
}

/// Reading a string's content from `i` stops behind `i` and within the text.
pub proof fn lemma_string_body_stops(s: Seq<char>, i: int)
    requires
        0 <= i <= s.len(),
    ensures
        i <= string_body_at(s, i).stop() <= s.len(),
        string_body_at(s, i) is Done ==> i < string_body_at(s, i).stop(),
        string_body_at(s, i) is Failed ==> string_body_at(s, i) == (Parsed::<Seq<char>>::Failed {
            fault: Fault::EarlyEof,
            at: s.len() as int,
        }),
    decreases s.len() - i,
{
    if i < s.len() && s[i] != '"' {
        if let Parsed::Done { end, .. } = escaped_char_at(s, i) {
            lemma_string_body_stops(s, end);
        }
    }
}

/// Reading an expression at `i` stops at or behind `i` and within the text.
pub proof fn lemma_sexp_stops(s: Seq<char>, i: int)
    requires
        0 <= i <= s.len(),
    ensures
        i <= sexp_at(s, i).stop() <= s.len(),
    decreases s.len() - i, 1int,
{
    if i < s.len() {
        if open_paren(s[i]) {
            lemma_list_stops(s, i);
        } else if s[i] == '"' {
            lemma_string_body_stops(s, i + 1);
        } else {
            lemma_symbol_end_stops(s, i);
        }
    }
}

/// Reading a list at `i` stops at or behind `i` and within the text; where it
/// succeeds, it stops behind the opening bracket, at a closing bracket.
pub proof fn lemma_list_stops(s: Seq<char>, i: int)
    requires
        0 <= i <= s.len(),
    ensures
        i <= list_at(s, i).stop() <= s.len(),
        list_at(s, i) is Done ==> i < list_at(s, i).stop() < s.len() && close_paren(
            s[list_at(s, i).stop()],
        ),
    decreases s.len() - i, 0int,
{
    if i < s.len() && open_paren(s[i]) {
        lemma_list_items_stop(s, i + 1);
    }
}

/// Reading the items of a list from `i` stops at or behind `i` and within the
/// text; where it succeeds, it stops at a closing bracket.
pub proof fn lemma_list_items_stop(s: Seq<char>, i: int)
    requires
        0 <= i <= s.len(),
    ensures
        i <= list_items_at(s, i).stop() <= s.len(),
        list_items_at(s, i) is Done ==> list_items_at(s, i).stop() < s.len() && close_paren(
            s[list_items_at(s, i).stop()],
        ),
    decreases s.len() - i, 2int,
{
    lemma_skip_whitespace_stops(s, i);
    let j = skip_whitespace(s, i);
    if j < s.len() && !close_paren(s[j]) {
        lemma_sexp_stops(s, j);
        if let Parsed::Done { end, .. } = sexp_at(s, j) {
            if j < end <= s.len() {
                lemma_list_items_stop(s, end);
            }
        }
    }
}

/// An expression that is read at `i` and does not begin with a closing
/// bracket takes at least one character.
pub proof fn lemma_item_takes_a_character(s: Seq<char>, i: int)
    requires
        0 <= i < s.len(),
        !close_paren(s[i]),
        sexp_at(s, i) is Done,
    ensures
        i < sexp_at(s, i).stop() <= s.len(),
{
    lemma_sexp_stops(s, i);
    if open_paren(s[i]) {
        lemma_list_stops(s, i);
    } else if s[i] == '"' {
        lemma_string_body_stops(s, i + 1);
    } else {
        lemma_symbol_end_stops(s, i);
    }
}

/// The items of a list, without the test that only serves termination: after
/// the whitespace, a closing bracket ends the chain, and anything else is read
/// as the head of a `Cons` cell whose tail is read where the head stopped.
pub proof fn lemma_list_items_unfold(s: Seq<char>, i: int)
    requires
        0 <= i <= s.len(),
    ensures
        list_items_at(s, i) == ({
            let j = skip_whitespace(s, i);
            if j >= s.len() {
                Parsed::Failed { fault: Fault::EarlyEof, at: j }
            } else if close_paren(s[j]) {
                Parsed::Done { value: SExpView::Nil, end: j }
            } else {
                match sexp_at(s, j) {
                    Parsed::Failed { fault, at } => Parsed::Failed { fault, at },
                    Parsed::Done { value: head, end } => match list_items_at(s, end) {
                        Parsed::Failed { fault, at } => Parsed::Failed { fault, at },
                        Parsed::Done { value: tail, end: stop } => Parsed::Done {
                            value: SExpView::Cons(Box::new(head), Box::new(tail)),
                            end: stop,
                        },
                    },
                }
            }
        }),
{
    lemma_skip_whitespace_stops(s, i);
    let j = skip_whitespace(s, i);
    if j < s.len() && !close_paren(s[j]) && sexp_at(s, j) is Done {
        lemma_item_takes_a_character(s, j);
    }
}

} // verus!
