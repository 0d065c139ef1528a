//! Front end of a small imperative language: a lexical scanner that turns
//! source text into tokens, and a recursive-descent parser that turns the
//! token stream into an abstract syntax tree.

pub mod ast;
pub mod diag;
pub mod parser;
pub mod tokenizer;
pub mod tokens;
