//! A reader for parenthesized-list notation: it turns a text into a tree of
//! lists, symbols and strings, and reports the position of the first
//! character at which it cannot go on.
//!
//! `grammar` defines what is read at each offset of a text, `parser` holds
//! the reader that computes it, and `laws` states what follows for whole
//! lists, for failures and for repeated readings.
//!
//! A list is read up to its closing bracket, which is checked against the
//! opening one and left in the stream: whoever reads on behind a list first
//! advances past the bracket. Inside a list, the closing bracket that a
//! nested list leaves behind therefore also ends the enclosing list.
//!
//! Numbers are recognised by their first character, `-` or a digit, and are
//! not decoded: reading one fails with `ReadError::NotImplemented`.

pub mod chars;
pub mod error;
pub mod grammar;
pub mod laws;
pub mod location;
pub mod parser;
pub mod sexp;

pub use chars::CharExt;
pub use error::ReadError;
pub use location::FileLocation;
pub use parser::SExpParser;
pub use sexp::SExp;
