//! The tokens of C1.
use vstd::prelude::*;

verus! {

/// The kinds of token the lexer produces.
#[derive(Clone, Copy, Debug, PartialEq, Eq, Structural)]
pub enum C1Token {
    KwBoolean,
    KwDo,
    KwElse,
    KwFloat,
    KwFor,
    KwIf,
    KwInt,
    KwPrintf,
    KwReturn,
    KwVoid,
    KwWhile,
    Plus,
    Minus,
    Asterisk,
    Slash,
    Assign,
    Equal,
    NotEqual,
    Less,
    Greater,
    LessEqual,
    GreaterEqual,
    And,
    Or,
    Comma,
    Semicolon,
    LeftParenthesis,
    RightParenthesis,
    LeftBrace,
    RightBrace,
    ConstInt,
    ConstFloat,
    ConstBoolean,
    ConstString,
    Identifier,
    Error,
}

/// One token of the source text: its kind, the half-open range of character
/// positions it covers, and the (1-based) line on which it starts.
#[derive(Clone, Copy, Debug, PartialEq, Eq, Structural)]
pub struct TokenData {
    pub token: C1Token,
    pub start: usize,
    pub end: usize,
    pub line: usize,
}

} // verus!
