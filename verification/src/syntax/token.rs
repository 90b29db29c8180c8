//! Tokens.

use vstd::prelude::*;
use crate::syntax::Span;

verus! {

/// A token: the bytes it was read from, its kind and where it stands.
#[derive(Debug, Clone, Copy, PartialEq, Eq)]
pub struct Token<'a> {
    pub lexeme: &'a [u8],
    pub kind: TokenKind,
    pub span: Span,
}

/// The kinds of token of the language.
#[derive(Debug, Clone, Copy, PartialEq, Eq, Structural)]
pub enum TokenKind {
    Identifier,
    LowerIdentifier,
    UpperIdentifier,
    Number,
    String,
    Equal,
    Struct,
    Comma,
    Colon,
    LBrace,
    RBrace,
    LParen,
    RParen,
    LBracket,
    RBracket,
    Semicolon,
    Def,
    Theorem,
    Eval,
    Record,
    Extern,
    Inductive,
    Class,
    Instance,
    Alias,
    At,
    Pipe,
    FatArrow,
    Underscore,
    Lambda,
    Let,
    In,
    Arrow,
    Product,
    EqualEqual,
    BangEqual,
    LessEqual,
    GreaterEqual,
    Less,
    Greater,
    Plus,
    Minus,
    Star,
    Slash,
    Dot,
    DoubleColon,
    EndOfFile,
}

/// A slice of tokens together with a read position in it.
#[derive(Debug, Clone, PartialEq, Eq)]
pub struct TokenStream<'a> {
    pub tokens: &'a [Token<'a>],
    pub position: usize,
}

/// A token as a value: its bytes, kind and span.
pub struct TokenV {
    pub lexeme: Seq<u8>,
    pub kind: TokenKind,
    pub span: Span,
}

impl<'a> View for Token<'a> {
    type V = TokenV;

    open spec fn view(&self) -> TokenV {
        TokenV { lexeme: self.lexeme@, kind: self.kind, span: self.span }
    }
}

} // verus!
