//! The two kinds of fatal diagnostics the front end can report: lexical
//! errors from the scanner and syntax errors from the parser. Both are
//! ordinary values; nothing in the front end panics.

use vstd::prelude::*;
use crate::tokens::Token;

verus! {

/// A fatal error of the scanner.
#[derive(Debug, Clone, Copy, PartialEq, Eq)]
pub enum LexError {
    /// A character that starts no lexeme. At or past the end of the input
    /// the scanner reads the sentinel character `'\0'` and reports it here.
    UnexpectedChar { ch: char, pos: usize },
    /// `=` or `!` not followed by the `=` that would complete the operator.
    /// `found` is the character that followed instead (the sentinel `'\0'`
    /// at the end of the input); `pos` is the cursor after the first
    /// character.
    MalformedOperator { op: char, found: char, pos: usize },
    /// An integer literal whose value does not fit in `isize`.
    /// `pos` is the position of its first digit.
    NumberOverflow { pos: usize },
}

/// A fatal error of the parser: at `found`, the production named
/// `production` expected one of the tokens described by `expected`.
/// `found` is `None` when the source ended where the end-of-input
/// token `.` was required.
#[derive(Debug, Clone, PartialEq, Eq)]
pub struct SyntaxError {
    pub production: String,
    pub expected: String,
    pub found: Option<Token>,
}

/// Any fatal error of the front end.
#[derive(Debug, Clone, PartialEq, Eq)]
pub enum ParseError {
    Lexical(LexError),
    Syntax(SyntaxError),
}

} // verus!
