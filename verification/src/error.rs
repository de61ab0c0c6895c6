//! The ways in which reading fails.

use crate::location::{FileLocation, FileLocationView};
use vstd::prelude::*;

verus! {

/// A failure of the reader. All kinds but `NotImplemented` carry the position
/// of the next unread character at the time of the failure, and a message.
#[derive(Debug, PartialEq, Eq)]
pub enum ReadError {
    /// The text ended where more characters were required.
    EarlyEOF { loc: FileLocation, msg: String },
    /// The next character is not one that the grammar allows here.
    WrongChar { loc: FileLocation, msg: String },
    /// A list is closed by a bracket of another kind than the one that opened it.
    ParenMismatch { loc: FileLocation, msg: String },
    /// A number begins here; numbers are not decoded.
    NotImplemented,
}

/// The mathematical value of a [`ReadError`].
pub enum ReadErrorView {
    EarlyEOF { loc: FileLocationView, msg: Seq<char> },
    WrongChar { loc: FileLocationView, msg: Seq<char> },
    ParenMismatch { loc: FileLocationView, msg: Seq<char> },
    NotImplemented,
}

impl View for ReadError {
    type V = ReadErrorView;

    open spec fn view(&self) -> ReadErrorView {
        match self {
            ReadError::EarlyEOF { loc, msg } => ReadErrorView::EarlyEOF { loc: loc@, msg: msg@ },
            ReadError::WrongChar { loc, msg } => ReadErrorView::WrongChar { loc: loc@, msg: msg@ },
            ReadError::ParenMismatch { loc, msg } => ReadErrorView::ParenMismatch {
                loc: loc@,
                msg: msg@,
            },
            ReadError::NotImplemented => ReadErrorView::NotImplemented,
        }
    }
}

/// What went wrong, in the grammar's own terms.
pub enum Fault {
    /// The text ended too early.
    EarlyEof,
    /// `found` stands where one of the characters of `expected` is required.
    WrongChar { found: char, expected: Seq<char> },
    /// A list opened by `open` is closed by `close`.
    ParenMismatch { open: char, close: char },
    /// A number begins here.
    NotImplemented,
}

/// The message of an `EarlyEOF`.
pub open spec fn eof_message() -> Seq<char> {
    "Unexpected End of File"@
}

/// The message of a `WrongChar`: it quotes the character found and the
/// characters expected.
pub open spec fn wrong_char_message(found: char, expected: Seq<char>) -> Seq<char> {
    "Unexpect character '"@.push(found) + "' expected one of '"@ + expected + "'"@
}

/// The message of a `ParenMismatch`: it quotes both brackets.
pub open spec fn paren_mismatch_message(open: char, close: char) -> Seq<char> {
    "List delimiters don't match:  '"@.push(open) + "' and '"@.push(close) + "'"@
}

impl Fault {
    /// The error that reports this fault at `loc`.
    pub open spec fn report(self, loc: FileLocationView) -> ReadErrorView {
        match self {
            Fault::EarlyEof => ReadErrorView::EarlyEOF { loc, msg: eof_message() },
            Fault::WrongChar { found, expected } => ReadErrorView::WrongChar {
                loc,
                msg: wrong_char_message(found, expected),
            },
            Fault::ParenMismatch { open, close } => ReadErrorView::ParenMismatch {
                loc,
                msg: paren_mismatch_message(open, close),
            },
            Fault::NotImplemented => ReadErrorView::NotImplemented,
        }
    }
}

} // verus!
