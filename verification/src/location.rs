//! Positions in the text that is being read.

use vstd::prelude::*;

verus! {

/// The place of a character in a named text. Lines and columns count from 0.
#[derive(Debug, PartialEq, Eq)]
pub struct FileLocation {
    pub file: String,
    pub line: usize,
    pub col: usize,
}

/// The mathematical value of a [`FileLocation`].
pub struct FileLocationView {
    pub file: Seq<char>,
    pub line: nat,
    pub col: nat,
}

impl View for FileLocation {
    type V = FileLocationView;

    open spec fn view(&self) -> FileLocationView {
        FileLocationView { file: self.file@, line: self.line as nat, col: self.col as nat }
    }
}

/// The line of the character that follows the first `n` characters of `s`:
/// the number of newlines among them.
pub open spec fn line_after(s: Seq<char>, n: int) -> nat
    decreases n,
{
    if n <= 0 {
        0
    } else if s[n - 1] == '\n' {
        line_after(s, n - 1) + 1
    } else {
        line_after(s, n - 1)
    }
}

/// The column of the character that follows the first `n` characters of `s`:
/// the number of characters among them that come after the last newline.
pub open spec fn col_after(s: Seq<char>, n: int) -> nat
    decreases n,
{
    if n <= 0 {
        0
    } else if s[n - 1] == '\n' {
        0
    } else {
        col_after(s, n - 1) + 1
    }
}

/// The position in `file` of the character that follows the first `n`
/// characters of `s`.
pub open spec fn location_after(file: Seq<char>, s: Seq<char>, n: int) -> FileLocationView {
    FileLocationView { file, line: line_after(s, n), col: col_after(s, n) }
}

/// Neither the line nor the column exceeds the number of characters passed.
pub proof fn lemma_location_bounded(s: Seq<char>, n: int)
    requires
        0 <= n,
    ensures
        line_after(s, n) <= n,
        col_after(s, n) <= n,
    decreases n,
{
    if n > 0 {
        lemma_location_bounded(s, n - 1);
    }
}

impl Clone for FileLocation {
    fn clone(&self) -> (loc: FileLocation)
        ensures
            loc@ == self@,
    {
        FileLocation { file: self.file.clone(), line: self.line, col: self.col }
    }
}

} // verus!
