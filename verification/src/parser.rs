//! The reader: a character stream with one character of lookahead and a
//! tracked position, and the recursive-descent procedures that read from it.

use crate::chars::{is_digit, is_whitespace, CharExt};
use crate::error::{Fault, ReadError, ReadErrorView};
use crate::grammar::{
    escaped_char_at, lemma_item_takes_a_character, lemma_skip_whitespace_stops, list_at,
    list_items_at, number_at, sexp_at, skip_whitespace, string_at, string_body_at, symbol_at,
    symbol_end, Parsed,
};
use crate::location::{
    col_after, lemma_location_bounded, line_after, location_after, FileLocation, FileLocationView,
};
use crate::sexp::{SExp, SExpView};
use vstd::prelude::*;
use vstd::string::StringExecFns;

verus! {

/// `std::string::String::push` is taken to append the one character `c` to the
/// end of `s` and to leave the characters before it as they were. This is
/// believed of the standard library, not proved.
pub assume_specification[ std::string::String::push ](s: &mut std::string::String, c: char)
    ensures
        final(s)@ == old(s)@.push(c),
;

/// A reader over the characters of one text.
///
/// The reader holds the text, the one character it has looked ahead at, and
/// the position of that character. Its mathematical state is the name of the
/// text (`file`), the text itself (`input`) and the number of characters
/// consumed so far (`offset`).
pub struct SExpParser {
    loc: FileLocation,
    chars: Vec<char>,
    pulled: usize,
    next_char: Option<char>,
}

impl SExpParser {
    /// The name of the text, as positions report it.
    pub closed spec fn file(&self) -> Seq<char> {
        self.loc.file@
    }

    /// The whole text.
    pub closed spec fn input(&self) -> Seq<char> {
        self.chars@
    }

    /// The number of characters consumed so far; the lookahead character, if
    /// there is one, is `input()[offset()]`.
    pub closed spec fn offset(&self) -> int {
        if self.next_char is Some {
            self.pulled - 1
        } else {
            self.pulled as int
        }
    }

    /// The invariant of the reader: the lookahead slot holds the character at
    /// `offset()`, or nothing once the text is used up, and the tracked
    /// position is that of the character at `offset()`.
    pub closed spec fn wf(&self) -> bool {
        &&& self.pulled <= self.chars.len()
        &&& match self.next_char {
            Some(c) => self.pulled >= 1 && self.chars@[self.pulled - 1] == c,
            None => self.pulled == self.chars.len(),
        }
        &&& self.loc.line == line_after(self.chars@, self.offset())
        &&& self.loc.col == col_after(self.chars@, self.offset())
    }

    /// The next character, if any is left.
    pub open spec fn lookahead(&self) -> Option<char> {
        if 0 <= self.offset() < self.input().len() {
            Some(self.input()[self.offset()])
        } else {
            None
        }
    }

    /// The position of the next character.
    pub open spec fn position(&self) -> FileLocationView {
        location_after(self.file(), self.input(), self.offset())
    }

    /// Whether `later` reads the same text under the same name.
    pub open spec fn same_text(&self, later: &SExpParser) -> bool {
        self.file() == later.file() && self.input() == later.input()
    }

    /// In a well-formed reader the offset lies within the text.
    pub proof fn lemma_offset_in_range(&self)
        requires
            self.wf(),
        ensures
            0 <= self.offset() <= self.input().len(),
    {
    }

    /// Takes the next character out of the text, if one is left.
    fn pull(&mut self) -> (c: Option<char>)
        requires
            old(self).pulled <= old(self).chars.len(),
        ensures
            final(self).loc == old(self).loc,
            final(self).chars == old(self).chars,
            final(self).next_char == old(self).next_char,
            old(self).pulled < old(self).chars.len() ==> c == Some(
                old(self).chars@[old(self).pulled as int],
            ) && final(self).pulled == old(self).pulled + 1,
            old(self).pulled == old(self).chars.len() ==> c is None && final(self).pulled == old(
                self,
            ).pulled,
    {
        if self.pulled < self.chars.len() {
            let c = self.chars[self.pulled];
            self.pulled = self.pulled + 1;
            Some(c)
        } else {
            None
        }
    }

    /// A reader at the start of the text `chars`, which positions will call
    /// `file`. The first character of the text becomes the lookahead.
    pub fn new(file: String, chars: Vec<char>) -> (parser: SExpParser)
        ensures
            parser.wf(),
            parser.file() == file@,
            parser.input() == chars@,
            parser.offset() == 0,
    {
        let mut parser = SExpParser {
            loc: FileLocation { file, line: 0, col: 0 },
            chars,
            pulled: 0,
            next_char: None,
        };
        let first = parser.pull();
        parser.next_char = first;
        parser
    }

    /// The position of the next character: the line is the number of newlines
    /// consumed, the column the number of characters consumed since the last
    /// of them.
    pub fn loc(&self) -> (loc: &FileLocation)
        requires
            self.wf(),
        ensures
            loc@ == self.position(),
    {
        &self.loc
    }

    /// The next character, without consuming it; `None` at the end of the
    /// text.
    pub fn peek(&self) -> (c: Option<char>)
        requires
            self.wf(),
        ensures
            c == self.lookahead(),
    {
        self.next_char
    }

    /// Consumes and returns the next character, and moves the position past
    /// it: a newline begins a new line at column 0, any other character adds
    /// one to the column. At the end of the text nothing changes.
    pub fn next(&mut self) -> (c: Option<char>)
        requires
            old(self).wf(),
        ensures
            final(self).wf(),
            old(self).same_text(final(self)),
            c == old(self).lookahead(),
            final(self).offset() == old(self).offset() + if c is Some {
                1int
            } else {
                0int
            },
            final(self).position() == (match c {
                Some(c) => FileLocationView {
                    file: old(self).file(),
                    line: if c == '\n' {
                        old(self).position().line + 1
                    } else {
                        old(self).position().line
                    },
                    col: if c == '\n' {
                        0
                    } else {
                        old(self).position().col + 1
                    },
                },
                None => old(self).position(),
            }),
    {
        proof {
            lemma_location_bounded(self.chars@, self.offset());
        }
        let c = self.next_char;
        let refill = self.pull();
        self.next_char = refill;
        if let Some(c) = c {
            if c == '\n' {
                self.loc.line = self.loc.line + 1;
                self.loc.col = 0;
            } else {
                self.loc.col = self.loc.col + 1;
            }
        }
        c
    }

    /// Consumes the next character, if there is one.
    pub fn advance(&mut self)
        requires
            old(self).wf(),
        ensures
            final(self).wf(),
            old(self).same_text(final(self)),
            final(self).offset() == old(self).offset() + if old(self).lookahead() is Some {
                1int
            } else {
                0int
            },
    {
        let _ = self.next();
    }

    /// The error for a text that ends too early, at the current position.
    pub fn error_eof(&self) -> (e: ReadError)
        requires
            self.wf(),
        ensures
            e@ == Fault::EarlyEof.report(self.position()),
    {
        ReadError::EarlyEOF {
            loc: self.loc.clone(),
            msg: String::from_str("Unexpected End of File"),
        }
    }

    /// The error for the character `c` standing, at the current position,
    /// where one of the characters of `expected` is required.
    pub fn error_wrong_char(&self, c: char, expected: &str) -> (e: ReadError)
        requires
            self.wf(),
        ensures
            e@ == (Fault::WrongChar { found: c, expected: expected@ }).report(self.position()),
    {
        let mut msg = String::from_str("Unexpect character '");
        msg.push(c);
        msg.append("' expected one of '");
        msg.append(expected);
        msg.append("'");
        ReadError::WrongChar { loc: self.loc.clone(), msg }
    }

    /// The error for a list that `c1` opens and `c2`, at the current position,
    /// closes.
    pub fn error_paren_mismatch(&self, c1: char, c2: char) -> (e: ReadError)
        requires
            self.wf(),
        ensures
            e@ == (Fault::ParenMismatch { open: c1, close: c2 }).report(self.position()),
    {
        let mut msg = String::from_str("List delimiters don't match:  '");
        msg.push(c1);
        msg.append("' and '");
        msg.push(c2);
        msg.append("'");
        ReadError::ParenMismatch { loc: self.loc.clone(), msg }
    }

    /// The error for a number. It carries no position.
    pub fn error_not_implemented(&self) -> (e: ReadError)
        ensures
            e == ReadError::NotImplemented,
    {
        ReadError::NotImplemented
    }

    /// Consumes whitespace up to the first character that is not whitespace,
    /// or to the end of the text.
    pub fn eat_white_space(&mut self)
        requires
            old(self).wf(),
        ensures
            final(self).wf(),
            old(self).same_text(final(self)),
            final(self).offset() == skip_whitespace(old(self).input(), old(self).offset()),
    {
        let ghost text = self.input();
        let ghost start = self.offset();
        loop
            invariant
                self.wf(),
                old(self).same_text(self),
                self.input() == text,
                skip_whitespace(text, self.offset()) == skip_whitespace(text, start),
            ensures
                self.wf(),
                old(self).same_text(self),
                self.offset() == skip_whitespace(text, start),
            decreases text.len() - self.offset(),
        {
            proof {
                self.lemma_offset_in_range();
            }
            match self.peek() {
                Some(c) => {
                    if is_whitespace(c) {
                        self.advance();
                    } else {
                        break ;
                    }
                },
                None => {
                    break ;
                },
            }
        }
    }

    /// Reads a symbol: the characters up to the next delimiter or the end of
    /// the text, which may be none. The delimiter stays unread. Never fails.
    pub fn read_symbol(&mut self) -> (r: Result<SExp, ReadError>)
        requires
            old(self).wf(),
        ensures
            final(self).wf(),
            old(self).same_text(final(self)),
            final(self).offset() == symbol_at(old(self).input(), old(self).offset()).stop(),
            tree_result(r) == outcome(
                symbol_at(old(self).input(), old(self).offset()),
                old(self).file(),
                old(self).input(),
            ),
    {
        let ghost text = self.input();
        let ghost start = self.offset();
        let mut sym_string = String::new();
        proof {
            self.lemma_offset_in_range();
        }
        loop
            invariant
                self.wf(),
                old(self).same_text(self),
                self.input() == text,
                0 <= start <= self.offset() <= text.len(),
                symbol_end(text, self.offset()) == symbol_end(text, start),
                sym_string@ == text.subrange(start, self.offset()),
            ensures
                self.wf(),
                old(self).same_text(self),
                self.offset() == symbol_end(text, start),
                sym_string@ == text.subrange(start, self.offset()),
            decreases text.len() - self.offset(),
        {
            match self.peek() {
                Some(c) => {
                    if c.is_delimiter() {
                        break ;
                    }
                    sym_string.push(c);
                    self.advance();
                },
                None => {
                    break ;
                },
            }
        }
        Ok(SExp::Symbol(sym_string))
    }

    /// Reads one character of a string's content: the next character, or,
    /// where that is a backslash, what the character behind it stands for:
    /// `n` a newline, `t` a tab, `r` a carriage return, any other character
    /// itself. Fails with `EarlyEOF` where the text ends before that.
    pub fn read_escaped_string_char(&mut self) -> (r: Result<char, ReadError>)
        requires
            old(self).wf(),
        ensures
            final(self).wf(),
            old(self).same_text(final(self)),
            final(self).offset() == escaped_char_at(old(self).input(), old(self).offset()).stop(),
            char_result(r) == outcome(
                escaped_char_at(old(self).input(), old(self).offset()),
                old(self).file(),
                old(self).input(),
            ),
    {
        proof {
            self.lemma_offset_in_range();
        }
        let c = match self.next() {
            Some(c) => c,
            None => {
                return Err(self.error_eof());
            },
        };
        if c == '\\' {
            let c = match self.next() {
                Some(c) => c,
                None => {
                    return Err(self.error_eof());
                },
            };
            Ok(
                match c {
                    'n' => '\n',
                    't' => '\t',
                    'r' => '\r',
                    _ => c,
                },
            )
        } else {
            Ok(c)
        }
    }

    /// Reads a quoted string: an opening quote, the content with its escapes
    /// decoded, and the closing quote, which is consumed. Fails with
    /// `WrongChar` where the next character is no quote, and with `EarlyEOF`
    /// where the text ends before the closing quote.
    pub fn read_string(&mut self) -> (r: Result<SExp, ReadError>)
        requires
            old(self).wf(),
        ensures
            final(self).wf(),
            old(self).same_text(final(self)),
            final(self).offset() == string_at(old(self).input(), old(self).offset()).stop(),
            tree_result(r) == outcome(
                string_at(old(self).input(), old(self).offset()),
                old(self).file(),
                old(self).input(),
            ),
    {
        let ghost text = self.input();
        let ghost start = self.offset();
        proof {
            self.lemma_offset_in_range();
        }
        let c = match self.peek() {
            Some(c) => c,
            None => {
                return Err(self.error_eof());
            },
        };
        if c != '"' {
            return Err(self.error_wrong_char(c, "\""));
        } else {
            self.advance();
        }
        let mut str_val = String::new();
        loop
            invariant_except_break
                start < self.offset() <= text.len(),
                string_body_at(text, start + 1) == prepend(
                    str_val@,
                    string_body_at(text, self.offset()),
                ),
            invariant
                self.wf(),
                old(self).same_text(self),
                text == old(self).input(),
                start == old(self).offset(),
                0 <= start < text.len(),
                text[start] == '"',
            ensures
                string_body_at(text, start + 1) == (Parsed::Done {
                    value: str_val@,
                    end: self.offset(),
                }),
            decreases text.len() - self.offset(),
        {
            let c = match self.peek() {
                Some(c) => c,
                None => {
                    return Err(self.error_eof());
                },
            };
            if c == '"' {
                self.advance();
                break ;
            } else {
                let c = match self.read_escaped_string_char() {
                    Ok(c) => c,
                    Err(e) => {
                        return Err(e);
                    },
                };
                proof {
                    lemma_prepend_push(str_val@, c, string_body_at(text, self.offset()));
                }
                str_val.push(c);
            }
        }
        Ok(SExp::String(str_val))
    }

    /// Reads one expression. The next character decides, and is not consumed
    /// here: an opening bracket begins a list, `-` or a digit a number, a
    /// quote a string, and any other character that is not whitespace a
    /// symbol. Fails with `EarlyEOF` at the end of the text and with
    /// `WrongChar` on whitespace, which is not skipped.
    pub fn read_sexp(&mut self) -> (r: Result<SExp, ReadError>)
        requires
            old(self).wf(),
        ensures
            final(self).wf(),
            old(self).same_text(final(self)),
            final(self).offset() == sexp_at(old(self).input(), old(self).offset()).stop(),
            tree_result(r) == outcome(
                sexp_at(old(self).input(), old(self).offset()),
                old(self).file(),
                old(self).input(),
            ),
        decreases old(self).input().len() - old(self).offset(), 1int,
    {
        proof {
            self.lemma_offset_in_range();
        }
        let c = match self.peek() {
            Some(c) => c,
            None => {
                return Err(self.error_eof());
            },
        };
        if c.is_open_paren() {
            self.read_list()
        } else if c == '-' || is_digit(c) {
            self.read_number()
        } else if c == '"' {
            self.read_string()
        } else if !is_whitespace(c) {
            self.read_symbol()
        } else {
            Err(self.error_wrong_char(c, "Any"))
        }
    }

    /// Reads a list: an opening bracket, which is consumed, the items, and a
    /// closing bracket of the same kind, which is checked and left unread.
    /// Fails with `WrongChar` where the next character opens no list, with
    /// `ParenMismatch` where the closing bracket is of another kind, and with
    /// `EarlyEOF` where the text ends before the closing bracket.
    pub fn read_list(&mut self) -> (r: Result<SExp, ReadError>)
        requires
            old(self).wf(),
        ensures
            final(self).wf(),
            old(self).same_text(final(self)),
            final(self).offset() == list_at(old(self).input(), old(self).offset()).stop(),
            tree_result(r) == outcome(
                list_at(old(self).input(), old(self).offset()),
                old(self).file(),
                old(self).input(),
            ),
        decreases old(self).input().len() - old(self).offset(), 0int,
    {
        proof {
            self.lemma_offset_in_range();
        }
        let c1 = match self.peek() {
            Some(c) => c,
            None => {
                return Err(self.error_eof());
            },
        };
        if c1.is_open_paren() {
            self.advance();
        } else {
            return Err(self.error_wrong_char(c1, "({["));
        }
        let items = match self.read_list_items() {
            Ok(items) => items,
            Err(e) => {
                return Err(e);
            },
        };
        proof {
            self.lemma_offset_in_range();
        }
        let c2 = match self.peek() {
            Some(c) => c,
            None => {
                return Err(self.error_eof());
            },
        };
        if c1.is_matching_paren(c2) {
            return Ok(items);
        } else {
            return Err(self.error_paren_mismatch(c1, c2));
        }
    }

    /// Reads the items of a list, up to its closing bracket, as a chain of
    /// `Cons` cells. Whitespace before each item is consumed. A closing
    /// bracket of any kind ends the chain with `Nil` and is left unread.
    /// Fails with `EarlyEOF` where the text ends before a closing bracket, and
    /// with the error of the first item that cannot be read.
    pub fn read_list_items(&mut self) -> (r: Result<SExp, ReadError>)
        requires
            old(self).wf(),
        ensures
            final(self).wf(),
            old(self).same_text(final(self)),
            final(self).offset() == list_items_at(old(self).input(), old(self).offset()).stop(),
            tree_result(r) == outcome(
                list_items_at(old(self).input(), old(self).offset()),
                old(self).file(),
                old(self).input(),
            ),
        decreases old(self).input().len() - old(self).offset(), 2int,
    {
        proof {
            self.lemma_offset_in_range();
            lemma_skip_whitespace_stops(self.input(), self.offset());
        }
        self.eat_white_space();
        let c = match self.peek() {
            Some(c) => c,
            None => {
                return Err(self.error_eof());
            },
        };
        if c.is_close_paren() {
            Ok(SExp::Nil)
        } else {
            proof {
                if sexp_at(self.input(), self.offset()) is Done {
                    lemma_item_takes_a_character(self.input(), self.offset());
                }
            }
            let head = match self.read_sexp() {
                Ok(head) => head,
                Err(e) => {
                    return Err(e);
                },
            };
            let tail = match self.read_list_items() {
                Ok(tail) => tail,
                Err(e) => {
                    return Err(e);
                },
            };
            Ok(SExp::Cons(Box::new(head), Box::new(tail)))
        }
    }

    /// Reads a number. Numbers are not decoded: this fails with
    /// `NotImplemented` and consumes nothing.
    pub fn read_number(&mut self) -> (r: Result<SExp, ReadError>)
        requires
            old(self).wf(),
        ensures
            final(self).wf(),
            old(self).same_text(final(self)),
            final(self).offset() == number_at(old(self).input(), old(self).offset()).stop(),
            tree_result(r) == outcome(
                number_at(old(self).input(), old(self).offset()),
                old(self).file(),
                old(self).input(),
            ),
            r == Err::<SExp, ReadError>(ReadError::NotImplemented),
    {
        Err(self.error_not_implemented())
    }
}

/// The value of what a reading procedure returns for a tree.
pub open spec fn tree_result(r: Result<SExp, ReadError>) -> Result<SExpView, ReadErrorView> {
    match r {
        Ok(tree) => Ok(tree@),
        Err(e) => Err(e@),
    }
}

/// The value of what a reading procedure returns for a character.
pub open spec fn char_result(r: Result<char, ReadError>) -> Result<char, ReadErrorView> {
    match r {
        Ok(c) => Ok(c),
        Err(e) => Err(e@),
    }
}

/// What the reader returns where the grammar gives `parsed` for the text
/// `input` named `file`: the value read, or the fault reported at the position
/// of the character at which it was met.
pub open spec fn outcome<T>(parsed: Parsed<T>, file: Seq<char>, input: Seq<char>) -> Result<
    T,
    ReadErrorView,
> {
    match parsed {
        Parsed::Done { value, .. } => Ok(value),
        Parsed::Failed { fault, at } => Err(fault.report(location_after(file, input, at))),
    }
}

/// `parsed`, with `front` put before the characters that it read.
spec fn prepend(front: Seq<char>, parsed: Parsed<Seq<char>>) -> Parsed<Seq<char>> {
    match parsed {
        Parsed::Done { value, end } => Parsed::Done { value: front + value, end },
        Parsed::Failed { fault, at } => Parsed::Failed { fault, at },
    }
}

proof fn lemma_prepend_push(front: Seq<char>, c: char, parsed: Parsed<Seq<char>>)
    ensures
        prepend(front, prepend(seq![c], parsed)) == prepend(front.push(c), parsed),
{
    if let Parsed::Done { value, .. } = parsed {
        assert(front + (seq![c] + value) =~= front.push(c) + value);
    }
}

} // verus!
