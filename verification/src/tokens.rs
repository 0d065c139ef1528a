//! The lexical tokens of the language, and their mathematical image.

use vstd::prelude::*;

verus! {

/// One lexical token. A token is an immutable value: it has no identity
/// beyond the equality of its variant and payload.
#[derive(Debug, Clone, PartialEq, Eq)]
pub enum Token {
    /// An integer literal.
    Number(isize),
    /// An identifier, carrying its name.
    Identifier(String),
    Plus,
    Minus,
    Times,
    Divide,
    /// The assignment operator, spelled `<-`.
    Assignment,
    /// The comparator spelled `==`.
    Equal,
    /// The comparator spelled `!=`.
    NotEqual,
    /// The comparator spelled `<`.
    Less,
    /// The comparator spelled `<=`.
    LessEqual,
    /// The comparator spelled `>`.
    Greater,
    /// The comparator spelled `>=`.
    GreaterEqual,
    Semicolon,
    Comma,
    OpenParen,
    CloseParen,
    OpenBrace,
    CloseBrace,
    If,
    Fi,
    Then,
    Else,
    While,
    Do,
    Od,
    Function,
    /// The keyword `call`.
    FunctionCall,
    Return,
    /// The keyword `var`.
    Variable,
    Let,
    Main,
    Void,
    /// The end-of-input marker, spelled `.` in source text.
    EOF,
}

/// The mathematical image of a token: the same variants, with the integer
/// payload widened to `int` and the identifier payload abstracted to its
/// character sequence. Contracts speak of this type.
pub enum TokenView {
    Number(int),
    Identifier(Seq<char>),
    Plus,
    Minus,
    Times,
    Divide,
    Assignment,
    Equal,
    NotEqual,
    Less,
    LessEqual,
    Greater,
    GreaterEqual,
    Semicolon,
    Comma,
    OpenParen,
    CloseParen,
    OpenBrace,
    CloseBrace,
    If,
    Fi,
    Then,
    Else,
    While,
    Do,
    Od,
    Function,
    FunctionCall,
    Return,
    Variable,
    Let,
    Main,
    Void,
    EOF,
}

impl View for Token {
    type V = TokenView;

    open spec fn view(&self) -> TokenView {
        match self {
            Token::Number(n) => TokenView::Number(*n as int),
            Token::Identifier(s) => TokenView::Identifier(s@),
            Token::Plus => TokenView::Plus,
            Token::Minus => TokenView::Minus,
            Token::Times => TokenView::Times,
            Token::Divide => TokenView::Divide,
            Token::Assignment => TokenView::Assignment,
            Token::Equal => TokenView::Equal,
            Token::NotEqual => TokenView::NotEqual,
            Token::Less => TokenView::Less,
            Token::LessEqual => TokenView::LessEqual,
            Token::Greater => TokenView::Greater,
            Token::GreaterEqual => TokenView::GreaterEqual,
            Token::Semicolon => TokenView::Semicolon,
            Token::Comma => TokenView::Comma,
            Token::OpenParen => TokenView::OpenParen,
            Token::CloseParen => TokenView::CloseParen,
            Token::OpenBrace => TokenView::OpenBrace,
            Token::CloseBrace => TokenView::CloseBrace,
            Token::If => TokenView::If,
            Token::Fi => TokenView::Fi,
            Token::Then => TokenView::Then,
            Token::Else => TokenView::Else,
            Token::While => TokenView::While,
            Token::Do => TokenView::Do,
            Token::Od => TokenView::Od,
            Token::Function => TokenView::Function,
            Token::FunctionCall => TokenView::FunctionCall,
            Token::Return => TokenView::Return,
            Token::Variable => TokenView::Variable,
            Token::Let => TokenView::Let,
            Token::Main => TokenView::Main,
            Token::Void => TokenView::Void,
            Token::EOF => TokenView::EOF,
        }
    }
}

/// Whether a token is one of the six relational comparators
/// (`<`, `<=`, `==`, `!=`, `>=`, `>`).
pub open spec fn is_relational_view(t: TokenView) -> bool {
    match t {
        TokenView::Less => true,
        TokenView::LessEqual => true,
        TokenView::Equal => true,
        TokenView::NotEqual => true,
        TokenView::GreaterEqual => true,
        TokenView::Greater => true,
        _ => false,
    }
}

/// Decides whether a token is a relational comparator.
pub fn is_relational(t: &Token) -> (b: bool)
    ensures
        b == is_relational_view(t@),
{
    match t {
        Token::Less => true,
        Token::LessEqual => true,
        Token::Equal => true,
        Token::NotEqual => true,
        Token::GreaterEqual => true,
        Token::Greater => true,
        _ => false,
    }
}

} // verus!
