//! Errors of the lexer and the parser.

use vstd::prelude::*;
use crate::syntax::{SourceSpan, Span};
use crate::syntax::token::TokenKind;

verus! {

/// A lexical error: what went wrong, where, and the bytes involved.
#[derive(Debug, Clone, Copy, PartialEq, Eq)]
pub struct LexError<'a> {
    pub kind: LexErrorKind,
    pub span: SourceSpan,
    pub lexeme: &'a [u8],
}

/// The kinds of lexical error.
#[derive(Debug, Clone, Copy, PartialEq, Eq, Structural)]
pub enum LexErrorKind {
    UnexpectedEndOfInput,
    InvalidToken,
    UnterminatedString,
    UnexpectedChar(char),
}

/// A syntax error: what went wrong, where, the token kinds that would have
/// been accepted there and the kind that was found (none at the end of input).
#[derive(Debug, Clone, PartialEq, Eq)]
pub struct ParseError {
    pub kind: ParseErrorKind,
    pub span: Span,
    pub expected: Vec<TokenKind>,
    pub found: Option<TokenKind>,
}

/// The kinds of syntax error.
#[derive(Debug, Clone, Copy, PartialEq, Eq, Structural)]
pub enum ParseErrorKind {
    UnexpectedToken,
    UnexpectedEndOfInput,
    UnclosedDelimiter { open: TokenKind, expected_close: TokenKind },
}

/// Either kind of syntactic error.
#[derive(Debug, Clone, PartialEq, Eq)]
pub enum SyntacticError<'a> {
    Lex(LexError<'a>),
    Parse(ParseError),
}

impl<'a> From<LexError<'a>> for SyntacticError<'a> {
    fn from(err: LexError<'a>) -> (r: Self) {
        SyntacticError::Lex(err)
    }
}

impl<'a> vstd::std_specs::convert::FromSpecImpl<LexError<'a>> for SyntacticError<'a> {
    open spec fn obeys_from_spec() -> bool {
        true
    }

    open spec fn from_spec(err: LexError<'a>) -> Self {
        SyntacticError::Lex(err)
    }
}

impl<'a> From<ParseError> for SyntacticError<'a> {
    fn from(err: ParseError) -> (r: Self) {
        SyntacticError::Parse(err)
    }
}

impl<'a> vstd::std_specs::convert::FromSpecImpl<ParseError> for SyntacticError<'a> {
    open spec fn obeys_from_spec() -> bool {
        true
    }

    open spec fn from_spec(err: ParseError) -> Self {
        SyntacticError::Parse(err)
    }
}

/// A lexical error as a value.
pub struct LexErrorV {
    pub kind: LexErrorKind,
    pub span: SourceSpan,
    pub lexeme: Seq<u8>,
}

impl<'a> View for LexError<'a> {
    type V = LexErrorV;

    open spec fn view(&self) -> LexErrorV {
        LexErrorV { kind: self.kind, span: self.span, lexeme: self.lexeme@ }
    }
}

/// A syntax error as a value.
pub struct ParseErrorV {
    pub kind: ParseErrorKind,
    pub span: Span,
    pub expected: Seq<TokenKind>,
    pub found: Option<TokenKind>,
}

impl View for ParseError {
    type V = ParseErrorV;

    open spec fn view(&self) -> ParseErrorV {
        ParseErrorV { kind: self.kind, span: self.span, expected: self.expected@, found: self.found }
    }
}

} // verus!
