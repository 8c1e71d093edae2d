//! The token alphabet of the source language.

use vstd::prelude::*;

verus! {

/// A reserved word of the language.
#[derive(Debug, Clone, Copy, PartialEq, Eq, Structural)]
pub enum Reserved {
    If,
    Else,
    While,
    Var,
    Func,
    In,
}

/// A reserved operator.  The single-character lexeme `=` is the assignment
/// operator and is kept apart from the ordinary symbolic operators.
#[derive(Debug, Clone, Copy, PartialEq, Eq, Structural)]
pub enum ReservedOp {
    Assign,
}

/// The mathematical value of a token: textual payloads as character
/// sequences.
pub enum TokenV {
    Operator(Seq<char>),
    Ident(Seq<char>),
    IntLiteral(i32),
    Reserved(Reserved),
    ReservedOp(ReservedOp),
    Dot,
    Comma,
    OpenParen,
    CloseParen,
    OpenBrace,
    CloseBrace,
    SemiColon,
}

/// One lexical token of the source language.
#[derive(Debug, Clone, PartialEq, Eq)]
pub enum Token {
    /// A maximal run of symbolic operator characters other than a lone `=`.
    Operator(String),
    /// An identifier: an ASCII letter followed by letters, digits or `_`.
    Ident(String),
    /// A decimal integer literal.
    IntLiteral(i32),
    /// A reserved word such as `if` or `func`.
    Reserved(Reserved),
    /// The reserved operator `=`.
    ReservedOp(ReservedOp),
    Dot,
    Comma,
    OpenParen,
    CloseParen,
    OpenBrace,
    CloseBrace,
    SemiColon,
}

impl View for Token {
    type V = TokenV;

    open spec fn view(&self) -> TokenV {
        match self {
            Token::Operator(s) => TokenV::Operator(s@),
            Token::Ident(s) => TokenV::Ident(s@),
            Token::IntLiteral(x) => TokenV::IntLiteral(*x),
            Token::Reserved(r) => TokenV::Reserved(*r),
            Token::ReservedOp(r) => TokenV::ReservedOp(*r),
            Token::Dot => TokenV::Dot,
            Token::Comma => TokenV::Comma,
            Token::OpenParen => TokenV::OpenParen,
            Token::CloseParen => TokenV::CloseParen,
            Token::OpenBrace => TokenV::OpenBrace,
            Token::CloseBrace => TokenV::CloseBrace,
            Token::SemiColon => TokenV::SemiColon,
        }
    }
}

/// The views of a token sequence.
pub open spec fn token_views(ts: Seq<Token>) -> Seq<TokenV> {
    ts.map_values(|t: Token| t@)
}

} // verus!
