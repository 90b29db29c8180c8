//! The lexer: turns the bytes of a source file into tokens.

use vstd::prelude::*;
use crate::syntax::{
    pos_advance_char, pos_newline, pos_row, pos_sane, SourceFile, SourcePos, SourceSpan, Span,
};
use crate::syntax::error::{LexError, LexErrorKind, LexErrorV};
use crate::syntax::text::{
    alphabetic, letter, char_len_utf8, first_char, is_alphabetic, is_digit_char, lemma_first_char_width,
    lemma_first_char_ascii, lemma_first_char_rest, lemma_valid_after_ascii, lemma_valid_has_first_char,
    str_from_utf8, utf8_width,
};
use crate::syntax::token::{Token, TokenKind, TokenV};

verus! {

/// The first character of `bytes`, provided that all of `bytes` is well-formed
/// UTF-8 (a malformed byte anywhere further on gives `None` too).
fn decode_utf8_char(bytes: &[u8]) -> (r: Option<char>)
    ensures
        r == first_char(bytes@),
{
    if bytes.is_empty() {
        return None;
    }
    let s = match str_from_utf8(bytes) {
        Some(s) => s,
        None => return None,
    };
    assert(s@.len() > 0);
    let mut chars = s.chars();
    proof {
        broadcast use vstd::string::group_string_axioms;
    }
    chars.next()
}

/// A character that can start an identifier.
pub open spec fn ident_start(c: char) -> bool {
    letter(c) || c == '_'
}

/// A character that can go on with an identifier.
pub open spec fn ident_continue(c: char) -> bool {
    letter(c) || is_digit_char(c) || c == '_'
}

fn is_ident_start(c: char) -> (b: bool)
    ensures
        b == ident_start(c),
{
    is_alphabetic(c) || c == '_'
}

fn is_ident_continue(c: char) -> (b: bool)
    ensures
        b == ident_continue(c),
{
    is_alphabetic(c) || (48 <= (c as u32) && (c as u32) <= 57) || c == '_'
}

/// The bytes of the keyword `struct`.
pub open spec fn struct_keyword() -> Seq<u8> {
    seq![115u8, 116u8, 114u8, 117u8, 99u8, 116u8]
}

fn is_struct_keyword(lexeme: &[u8]) -> (b: bool)
    ensures
        b == (lexeme@ == struct_keyword()),
{
    let r = lexeme.len() == 6 && lexeme[0] == 115u8 && lexeme[1] == 116u8 && lexeme[2] == 114u8
        && lexeme[3] == 117u8 && lexeme[4] == 99u8 && lexeme[5] == 116u8;
    proof {
        if r {
            assert(lexeme@ =~= struct_keyword());
        }
    }
    r
}

/// Space, tab and carriage return: skipped on the current line.
pub open spec fn is_blank(b: u8) -> bool {
    b == 32 || b == 9 || b == 13
}

/// The position past the blanks and newlines that start at `p`.
pub open spec fn skip_whitespace(src: Seq<u8>, p: SourcePos) -> SourcePos
    decreases src.len() - p.byte_offset,
{
    if p.byte_offset >= src.len() || p.byte_offset >= usize::MAX {
        p
    } else if is_blank(src[p.byte_offset as int]) {
        skip_whitespace(src, pos_row(p))
    } else if src[p.byte_offset as int] == 10 {
        skip_whitespace(src, pos_newline(p))
    } else {
        p
    }
}

/// The position past the ASCII digits that start at `p`.
pub open spec fn digits_end(src: Seq<u8>, p: SourcePos) -> SourcePos
    decreases src.len() - p.byte_offset,
{
    if p.byte_offset < src.len() && p.byte_offset < usize::MAX && 48 <= src[p.byte_offset as int]
        <= 57 {
        digits_end(src, pos_row(p))
    } else {
        p
    }
}

/// The position past the identifier characters that start at `p`.
pub open spec fn ident_end(src: Seq<u8>, p: SourcePos) -> SourcePos
    decreases src.len() - p.byte_offset,
{
    if p.byte_offset < src.len() && src.len() <= usize::MAX {
        match first_char(src.subrange(p.byte_offset as int, src.len() as int)) {
            Some(c) => if ident_continue(c) && 1 <= utf8_width(c) && p.byte_offset + utf8_width(c)
                <= src.len() {
                ident_end(src, pos_advance_char(p, c))
            } else {
                p
            },
            None => p,
        }
    } else {
        p
    }
}

proof fn lemma_digits_end_advances(src: Seq<u8>, p: SourcePos)
    ensures
        p.byte_offset <= digits_end(src, p).byte_offset,
    decreases src.len() - p.byte_offset,
{
    if p.byte_offset < src.len() && p.byte_offset < usize::MAX && 48 <= src[p.byte_offset as int]
        <= 57 {
        lemma_digits_end_advances(src, pos_row(p));
    }
}

proof fn lemma_ident_end_advances(src: Seq<u8>, p: SourcePos)
    ensures
        p.byte_offset <= ident_end(src, p).byte_offset,
    decreases src.len() - p.byte_offset,
{
    if p.byte_offset < src.len() && src.len() <= usize::MAX {
        match first_char(src.subrange(p.byte_offset as int, src.len() as int)) {
            Some(c) => if ident_continue(c) && 1 <= utf8_width(c) && p.byte_offset + utf8_width(c)
                <= src.len() {
                lemma_ident_end_advances(src, pos_advance_char(p, c));
            },
            None => {},
        }
    }
}

/// The position past the body of a string literal that starts at `p` (just
/// after the opening quote): past the closing quote, or at the end of input.
pub open spec fn string_end(src: Seq<u8>, p: SourcePos) -> SourcePos
    decreases src.len() - p.byte_offset,
{
    if p.byte_offset < src.len() && p.byte_offset < usize::MAX {
        if src[p.byte_offset as int] == 34 {
            pos_row(p)
        } else {
            string_end(src, pos_row(p))
        }
    } else {
        p
    }
}

/// The token of kind `kind` read from `start` to `end`.
pub open spec fn token_between(kind: TokenKind, src: Seq<u8>, start: SourcePos, end: SourcePos) -> TokenV {
    TokenV {
        lexeme: src.subrange(start.byte_offset as int, end.byte_offset as int),
        kind,
        span: Span { file: start.file, start: start.byte_offset, end: end.byte_offset },
    }
}

/// The kind of a one-character punctuation token.
pub open spec fn punctuation_kind(c: char) -> Option<TokenKind> {
    if c == '=' {
        Some(TokenKind::Equal)
    } else if c == ',' {
        Some(TokenKind::Comma)
    } else if c == ':' {
        Some(TokenKind::Colon)
    } else if c == '{' {
        Some(TokenKind::LBrace)
    } else if c == '}' {
        Some(TokenKind::RBrace)
    } else if c == '(' {
        Some(TokenKind::LParen)
    } else if c == ')' {
        Some(TokenKind::RParen)
    } else if c == ';' {
        Some(TokenKind::Semicolon)
    } else {
        None
    }
}

/// What reading one token at `p` gives: nothing at the end of input (or where
/// the rest of the input is not well-formed UTF-8), a token, or an error for
/// an unexpected character; and the position reached.
pub open spec fn lex_step(src: Seq<u8>, p: SourcePos) -> (Option<Result<TokenV, LexErrorV>>, SourcePos) {
    let start = skip_whitespace(src, p);
    if start.byte_offset >= src.len() {
        (None, start)
    } else {
        match first_char(src.subrange(start.byte_offset as int, src.len() as int)) {
            None => (None, start),
            Some(c) => if is_digit_char(c) {
                let end = digits_end(src, start);
                (Some(Ok(token_between(TokenKind::Number, src, start, end))), end)
            } else if ident_start(c) {
                let end = ident_end(src, start);
                let lexeme = src.subrange(start.byte_offset as int, end.byte_offset as int);
                let kind = if lexeme == struct_keyword() {
                    TokenKind::Struct
                } else {
                    TokenKind::Identifier
                };
                (Some(Ok(token_between(kind, src, start, end))), end)
            } else if c == '"' {
                let end = string_end(src, pos_row(start));
                (Some(Ok(token_between(TokenKind::String, src, start, end))), end)
            } else if punctuation_kind(c) is Some {
                let end = pos_row(start);
                (Some(Ok(token_between(punctuation_kind(c)->0, src, start, end))), end)
            } else {
                let end = pos_advance_char(start, c);
                (
                    Some(
                        Err(
                            LexErrorV {
                                kind: LexErrorKind::UnexpectedChar(c),
                                span: SourceSpan { start, end },
                                lexeme: src.subrange(
                                    start.byte_offset as int,
                                    end.byte_offset as int,
                                ),
                            },
                        ),
                    ),
                    end,
                )
            },
        }
    }
}

/// A lexer result as a value.
pub open spec fn lex_result_view<'a>(r: Option<Result<Token<'a>, LexError<'a>>>) -> Option<
    Result<TokenV, LexErrorV>,
> {
    match r {
        None => None,
        Some(Ok(t)) => Some(Ok(t@)),
        Some(Err(e)) => Some(Err(e@)),
    }
}

/// Reads tokens from `p` for a buffer of `cap` slots that already holds
/// `acc`: it stops at the end of input or at an error, and once the buffer is
/// full it reads one more token and drops it.
pub open spec fn read_tokens(src: Seq<u8>, p: SourcePos, cap: nat, acc: Seq<TokenV>) -> (
    Seq<TokenV>,
    SourcePos,
)
    decreases src.len() - p.byte_offset,
{
    let (r, q) = lex_step(src, p);
    match r {
        Some(Ok(t)) => if acc.len() < cap {
            if p.byte_offset < q.byte_offset <= src.len() {
                read_tokens(src, q, cap, acc.push(t))
            } else {
                (acc.push(t), q)
            }
        } else {
            (acc, q)
        },
        _ => (acc, q),
    }
}

/// A lexer over one source file.
pub struct Lexer<'a> {
    source_file: &'a SourceFile<'a>,
    source_pos: SourcePos,
}

impl<'a> Lexer<'a> {
    #[verifier::type_invariant]
    spec fn inv(self) -> bool {
        &&& self.source_pos.byte_offset <= self.source_file.source@.len()
        &&& pos_sane(self.source_pos)
        &&& self.source_pos.file == self.source_file.id
    }

    /// The bytes being read.
    pub closed spec fn source(self) -> Seq<u8> {
        self.source_file.source@
    }

    /// The number of the file being read.
    pub closed spec fn file_id(self) -> usize {
        self.source_file.id
    }

    /// Where the lexer stands.
    pub closed spec fn position(self) -> SourcePos {
        self.source_pos
    }

    /// A lexer at the start of the file.
    pub fn new(source_file: &'a SourceFile<'a>) -> (l: Self)
        ensures
            l.source() == source_file.source@,
            l.file_id() == source_file.id,
            l.position() == (SourcePos { file: source_file.id, byte_offset: 0, line: 0, column: 0 }),
    {
        Self { source_file, source_pos: SourcePos::start_of_file(source_file.id) }
    }

    /// Fills `tokens` from the front with the tokens read until the end of
    /// input or the first error, and returns how many it stored; where the
    /// slice is full, one more token is read and dropped.
    pub fn read_all(&mut self, tokens: &mut [Token<'a>]) -> (n: usize)
        ensures
            final(self).source() == old(self).source(),
            final(self).file_id() == old(self).file_id(),
            ({
                let (ts, q) = read_tokens(old(self).source(), old(self).position(), old(tokens)@.len(), seq![]);
                &&& n == ts.len()
                &&& final(self).position() == q
                &&& final(tokens)@.len() == old(tokens)@.len()
                &&& forall|i: int| 0 <= i < n ==> #[trigger] final(tokens)@[i]@ == ts[i]
                &&& forall|i: int| n <= i < old(tokens)@.len() ==> #[trigger] final(tokens)@[i] == old(tokens)@[i]
            }),
    {
        let ghost src = self.source();
        let ghost cap = tokens@.len();
        let ghost target = read_tokens(src, self.position(), cap, seq![]);
        let ghost init_tokens = tokens@;
        let mut index: usize = 0;
        let ghost mut acc: Seq<TokenV> = seq![];
        loop
            invariant_except_break
                read_tokens(src, self.position(), cap, acc) == target,
            invariant
                self.source() == src,
                self.file_id() == old(self).file_id(),
                tokens@.len() == cap,
                index == acc.len(),
                index <= cap,
                forall|i: int| 0 <= i < index ==> #[trigger] tokens@[i]@ == acc[i],
                forall|i: int| index <= i < cap ==> #[trigger] tokens@[i] == init_tokens[i],
            ensures
                index == target.0.len(),
                self.position() == target.1,
                forall|i: int| 0 <= i < index ==> #[trigger] tokens@[i]@ == target.0[i],
                forall|i: int| index <= i < cap ==> #[trigger] tokens@[i] == init_tokens[i],
            decreases src.len() - self.position().byte_offset,
        {
            proof {
                use_type_invariant(&*self);
            }
            let ghost before = self.position();
            let r = self.next();
            match r {
                Some(Ok(token)) => {
                    if index < tokens.len() {
                        tokens[index] = token;
                        index += 1;
                        proof {
                            use_type_invariant(&*self);
                            acc = acc.push(token@);
                        }
                    } else {
                        break;
                    }
                },
                _ => {
                    break;
                },
            }
        }
        index
    }

    /// Reads the next token: `None` at the end of input (or where the rest of
    /// the input is not well-formed UTF-8), else a token or an error for a
    /// character that starts no token.
    pub fn next(&mut self) -> (r: Option<Result<Token<'a>, LexError<'a>>>)
        ensures
            final(self).source() == old(self).source(),
            final(self).file_id() == old(self).file_id(),
            (lex_result_view(r), final(self).position()) == lex_step(old(self).source(), old(self).position()),
            r is Some ==> old(self).position().byte_offset < final(self).position().byte_offset,
    {
        proof {
            use_type_invariant(&*self);
        }
        let source: &'a [u8] = self.source_file.source;
        let len = source.len();
        let ghost src = source@;
        let ghost p0 = self.source_pos;
        loop
            invariant
                source@ == src,
                len == src.len(),
                src == old(self).source(),
                p0.byte_offset <= self.source_pos.byte_offset,
                self.source() == src,
                self.file_id() == old(self).file_id(),
                self.source_pos.byte_offset <= src.len(),
                pos_sane(self.source_pos),
                self.source_pos.file == p0.file,
                p0.file == self.file_id(),
                p0 == old(self).position(),
                skip_whitespace(src, self.source_pos) == skip_whitespace(src, p0),
            ensures
                self.source_pos == skip_whitespace(src, p0),
                self.source_pos.byte_offset < src.len(),
                self.source_pos.byte_offset <= src.len(),
                pos_sane(self.source_pos),
                self.source_pos.file == p0.file,
            decreases src.len() - self.source_pos.byte_offset,
        {
            if self.source_pos.byte_offset >= source.len() {
                return None;
            }
            let b = source[self.source_pos.byte_offset];
            if b == 32u8 || b == 9u8 || b == 13u8 {
                self.source_pos.row();
            } else if b == 10u8 {
                self.source_pos.newline();
            } else {
                break;
            }
        }
        let remaining = &source[self.source_pos.byte_offset..source.len()];
        let current = match decode_utf8_char(remaining) {
            Some(c) => c,
            None => return None,
        };
        proof {
            lemma_first_char_width(remaining@);
            assert(remaining@ == src.subrange(self.source_pos.byte_offset as int, src.len() as int));
        }
        let start = self.source_pos;
        if 48 <= (current as u32) && (current as u32) <= 57 {
            proof {
                lemma_first_char_ascii(remaining@);
                assert(remaining@[0] == src[start.byte_offset as int]);
                lemma_digits_end_advances(src, pos_row(start));
            }
            while self.source_pos.byte_offset < source.len() && 48u8 <= source[self.source_pos.byte_offset]
                && source[self.source_pos.byte_offset] <= 57u8
                invariant
                    source@ == src,
                    len == src.len(),
                    src == old(self).source(),
                    self.source() == src,
                    self.file_id() == old(self).file_id(),
                    self.source_pos.byte_offset <= src.len(),
                    start.byte_offset <= self.source_pos.byte_offset,
                    pos_sane(self.source_pos),
                    self.source_pos.file == p0.file,
                    p0.file == self.file_id(),
                    digits_end(src, self.source_pos) == digits_end(src, start),
                decreases src.len() - self.source_pos.byte_offset,
            {
                self.source_pos.row();
            }
            let lexeme = &source[start.byte_offset..self.source_pos.byte_offset];
            return Some(
                Ok(
                    Token {
                        kind: TokenKind::Number,
                        lexeme,
                        span: Span::new(start.file, start.byte_offset, self.source_pos.byte_offset),
                    },
                ),
            );
        }
        if is_ident_start(current) {
            loop
                invariant
                    source@ == src,
                    len == src.len(),
                    src == old(self).source(),
                    self.source() == src,
                    self.file_id() == old(self).file_id(),
                    self.source_pos.byte_offset <= src.len(),
                    start.byte_offset <= self.source_pos.byte_offset,
                    pos_sane(self.source_pos),
                    self.source_pos.file == p0.file,
                    p0.file == self.file_id(),
                    ident_end(src, self.source_pos) == ident_end(src, start),
                ensures
                    self.source_pos == ident_end(src, start),
                    start.byte_offset <= self.source_pos.byte_offset <= src.len(),
                decreases src.len() - self.source_pos.byte_offset,
            {
                if self.source_pos.byte_offset >= source.len() {
                    break;
                }
                let rest = &source[self.source_pos.byte_offset..source.len()];
                match decode_utf8_char(rest) {
                    Some(c) => {
                        proof {
                            lemma_first_char_width(rest@);
                        }
                        if is_ident_continue(c) {
                            self.source_pos.advance_by_char(c);
                        } else {
                            break;
                        }
                    },
                    None => {
                        break;
                    },
                }
            }
            proof {
                // the first character continues the identifier too, so it is consumed
                assert(ident_continue(current));
                lemma_ident_end_advances(src, pos_advance_char(start, current));
                assert(start.byte_offset < ident_end(src, start).byte_offset);
            }
            let lexeme = &source[start.byte_offset..self.source_pos.byte_offset];
            let kind = if is_struct_keyword(lexeme) {
                TokenKind::Struct
            } else {
                TokenKind::Identifier
            };
            return Some(
                Ok(
                    Token {
                        kind,
                        lexeme,
                        span: Span::new(start.file, start.byte_offset, self.source_pos.byte_offset),
                    },
                ),
            );
        }
        if current == '"' {
            self.source_pos.row();
            loop
                invariant_except_break
                    string_end(src, self.source_pos) == string_end(src, pos_row(start)),
                invariant
                    source@ == src,
                    len == src.len(),
                    src == old(self).source(),
                    self.source() == src,
                    self.file_id() == old(self).file_id(),
                    self.source_pos.byte_offset <= src.len(),
                    start.byte_offset < self.source_pos.byte_offset,
                    pos_sane(self.source_pos),
                    self.source_pos.file == p0.file,
                    p0.file == self.file_id(),
                ensures
                    self.source_pos == string_end(src, pos_row(start)),
                    start.byte_offset < self.source_pos.byte_offset <= src.len(),
                decreases src.len() - self.source_pos.byte_offset,
            {
                if self.source_pos.byte_offset >= source.len() {
                    break;
                }
                let c = source[self.source_pos.byte_offset];
                if c == 34u8 {
                    self.source_pos.row();
                    break;
                } else {
                    self.source_pos.row();
                }
            }
            let lexeme = &source[start.byte_offset..self.source_pos.byte_offset];
            return Some(
                Ok(
                    Token {
                        kind: TokenKind::String,
                        lexeme,
                        span: Span::new(start.file, start.byte_offset, self.source_pos.byte_offset),
                    },
                ),
            );
        }
        let punct = if current == '=' {
            Some(TokenKind::Equal)
        } else if current == ',' {
            Some(TokenKind::Comma)
        } else if current == ':' {
            Some(TokenKind::Colon)
        } else if current == '{' {
            Some(TokenKind::LBrace)
        } else if current == '}' {
            Some(TokenKind::RBrace)
        } else if current == '(' {
            Some(TokenKind::LParen)
        } else if current == ')' {
            Some(TokenKind::RParen)
        } else if current == ';' {
            Some(TokenKind::Semicolon)
        } else {
            None
        };
        match punct {
            Some(kind) => {
                self.source_pos.row();
                let lexeme = &source[start.byte_offset..self.source_pos.byte_offset];
                Some(
                    Ok(
                        Token {
                            kind,
                            lexeme,
                            span: Span::new(start.file, start.byte_offset, self.source_pos.byte_offset),
                        },
                    ),
                )
            },
            None => {
                self.source_pos.advance_by_char(current);
                let lexeme = &source[start.byte_offset..self.source_pos.byte_offset];
                Some(
                    Err(
                        LexError {
                            kind: LexErrorKind::UnexpectedChar(current),
                            span: SourceSpan { start, end: self.source_pos },
                            lexeme,
                        },
                    ),
                )
            },
        }
    }
}

} // verus!

verus! {

/// Every token of `ts` starts at or past `from`, ends within `src`, holds
/// the bytes of `src` that its span covers, and ends before the next begins.
pub open spec fn tokens_in_order(src: Seq<u8>, from: int, ts: Seq<TokenV>) -> bool {
    &&& forall|i: int|
        0 <= i < ts.len() ==> {
            &&& from <= #[trigger] ts[i].span.start <= ts[i].span.end <= src.len()
            &&& ts[i].lexeme == src.subrange(ts[i].span.start as int, ts[i].span.end as int)
        }
    &&& forall|i: int, j: int| 0 <= i < j < ts.len() ==> #[trigger] ts[i].span.end <= #[trigger] ts[j].span.start
}

proof fn lemma_skip_whitespace_bounds(src: Seq<u8>, p: SourcePos)
    requires
        p.byte_offset <= src.len(),
    ensures
        p.byte_offset <= skip_whitespace(src, p).byte_offset <= src.len(),
        skip_whitespace(src, p).file == p.file,
    decreases src.len() - p.byte_offset,
{
    if p.byte_offset >= src.len() || p.byte_offset >= usize::MAX {
    } else if is_blank(src[p.byte_offset as int]) {
        lemma_skip_whitespace_bounds(src, pos_row(p));
    } else if src[p.byte_offset as int] == 10 {
        lemma_skip_whitespace_bounds(src, pos_newline(p));
    }
}

proof fn lemma_digits_end_bounds(src: Seq<u8>, p: SourcePos)
    requires
        p.byte_offset <= src.len(),
    ensures
        p.byte_offset <= digits_end(src, p).byte_offset <= src.len(),
    decreases src.len() - p.byte_offset,
{
    if p.byte_offset < src.len() && p.byte_offset < usize::MAX && 48 <= src[p.byte_offset as int]
        <= 57 {
        lemma_digits_end_bounds(src, pos_row(p));
    }
}

proof fn lemma_ident_end_bounds(src: Seq<u8>, p: SourcePos)
    requires
        p.byte_offset <= src.len(),
    ensures
        p.byte_offset <= ident_end(src, p).byte_offset <= src.len(),
    decreases src.len() - p.byte_offset,
{
    if p.byte_offset < src.len() && src.len() <= usize::MAX {
        match first_char(src.subrange(p.byte_offset as int, src.len() as int)) {
            Some(c) => if ident_continue(c) && 1 <= utf8_width(c) && p.byte_offset + utf8_width(c)
                <= src.len() {
                lemma_ident_end_bounds(src, pos_advance_char(p, c));
            },
            None => {},
        }
    }
}

proof fn lemma_string_end_bounds(src: Seq<u8>, p: SourcePos)
    requires
        p.byte_offset <= src.len(),
    ensures
        p.byte_offset <= string_end(src, p).byte_offset <= src.len(),
    decreases src.len() - p.byte_offset,
{
    if p.byte_offset < src.len() && p.byte_offset < usize::MAX && src[p.byte_offset as int] != 34 {
        lemma_string_end_bounds(src, pos_row(p));
    }
}

/// A token read at `p` lies at or past `p`, within the source, ends where
/// the lexer stops, and holds the bytes its span covers.
proof fn lemma_lex_step_token(src: Seq<u8>, p: SourcePos)
    requires
        p.byte_offset <= src.len() <= usize::MAX,
    ensures
        lex_step(src, p).0 matches Some(Ok(t)) ==> {
            &&& p.byte_offset <= t.span.start <= t.span.end <= src.len()
            &&& t.span.end == lex_step(src, p).1.byte_offset
            &&& t.lexeme == src.subrange(t.span.start as int, t.span.end as int)
        },
{
    let start = skip_whitespace(src, p);
    lemma_skip_whitespace_bounds(src, p);
    if start.byte_offset < src.len() {
        lemma_digits_end_bounds(src, start);
        lemma_ident_end_bounds(src, start);
        lemma_string_end_bounds(src, pos_row(start));
    }
}

proof fn lemma_read_tokens_in_order(src: Seq<u8>, from: int, p: SourcePos, cap: nat, acc: Seq<TokenV>)
    requires
        from <= p.byte_offset <= src.len() <= usize::MAX,
        tokens_in_order(src, from, acc),
        forall|i: int| 0 <= i < acc.len() ==> #[trigger] acc[i].span.end <= p.byte_offset,
    ensures
        tokens_in_order(src, from, read_tokens(src, p, cap, acc).0),
    decreases src.len() - p.byte_offset,
{
    let (r, q) = lex_step(src, p);
    lemma_lex_step_token(src, p);
    match r {
        Some(Ok(t)) => if acc.len() < cap {
            let acc2 = acc.push(t);
            assert(tokens_in_order(src, from, acc2)) by {
                assert forall|i: int, j: int| 0 <= i < j < acc2.len() implies #[trigger] acc2[i].span.end
                    <= #[trigger] acc2[j].span.start by {
                    if j == acc.len() {
                        assert(acc[i].span.end <= p.byte_offset);
                    }
                }
            }
            if p.byte_offset < q.byte_offset <= src.len() {
                lemma_read_tokens_in_order(src, from, q, cap, acc2);
            }
        },
        _ => {},
    }
}

/// The tokens the lexer reads from where it stands (what `read_all` stores)
/// come in the order of the source, none reaching into the next, none before
/// that position; each token's bytes are the bytes of the source that its
/// span covers.
pub proof fn law_tokens_in_source_order(src: Seq<u8>, p: SourcePos, cap: nat)
    requires
        p.byte_offset <= src.len() <= usize::MAX,
    ensures
        tokens_in_order(src, p.byte_offset as int, read_tokens(src, p, cap, seq![]).0),
{
    lemma_read_tokens_in_order(src, p.byte_offset as int, p, cap, seq![]);
}

proof fn lemma_skip_whitespace_settles(src: Seq<u8>, p: SourcePos)
    ensures
        skip_whitespace(src, skip_whitespace(src, p)) == skip_whitespace(src, p),
    decreases src.len() - p.byte_offset,
{
    if p.byte_offset >= src.len() || p.byte_offset >= usize::MAX {
    } else if is_blank(src[p.byte_offset as int]) {
        lemma_skip_whitespace_settles(src, pos_row(p));
    } else if src[p.byte_offset as int] == 10 {
        lemma_skip_whitespace_settles(src, pos_newline(p));
    }
}

/// Once the lexer finds no more tokens, it finds none again and stays where
/// it is: reading on from where it stopped gives the same answer.
pub proof fn law_end_of_input_is_final(src: Seq<u8>, p: SourcePos)
    ensures
        lex_step(src, p).0 is None ==> lex_step(src, lex_step(src, p).1) == lex_step(src, p),
{
    lemma_skip_whitespace_settles(src, p);
}

/// Space, tab, carriage return or newline.
pub open spec fn is_whitespace_byte(b: u8) -> bool {
    is_blank(b) || b == 10
}

proof fn lemma_skip_whitespace_skips_whitespace(src: Seq<u8>, p: SourcePos)
    requires
        p.byte_offset <= src.len() <= usize::MAX,
    ensures
        forall|k: int|
            p.byte_offset <= k < skip_whitespace(src, p).byte_offset ==> is_whitespace_byte(#[trigger] src[k]),
        skip_whitespace(src, p).byte_offset < src.len() ==> !is_whitespace_byte(
            src[skip_whitespace(src, p).byte_offset as int],
        ),
    decreases src.len() - p.byte_offset,
{
    lemma_skip_whitespace_bounds(src, p);
    if p.byte_offset >= src.len() || p.byte_offset >= usize::MAX {
    } else if is_blank(src[p.byte_offset as int]) {
        lemma_skip_whitespace_skips_whitespace(src, pos_row(p));
    } else if src[p.byte_offset as int] == 10 {
        lemma_skip_whitespace_skips_whitespace(src, pos_newline(p));
    }
}

/// What one step of the lexer gives, where it gives something: an item
/// whose span is not empty, lies within the source at or past where the
/// lexer stood, ends where the lexer stops, and whose bytes are the bytes of
/// the source it covers; a token or an error alike.
pub open spec fn step_item_ok(src: Seq<u8>, p: SourcePos) -> bool {
    let (r, q) = lex_step(src, p);
    match r {
        Some(Ok(t)) => {
            &&& p.byte_offset <= t.span.start < t.span.end <= src.len()
            &&& t.span.end == q.byte_offset
            &&& t.span.file == p.file
            &&& t.lexeme == src.subrange(t.span.start as int, t.span.end as int)
        },
        Some(Err(e)) => {
            &&& p.byte_offset <= e.span.start.byte_offset < e.span.end.byte_offset <= src.len()
            &&& e.span.end == q
            &&& e.lexeme == src.subrange(e.span.start.byte_offset as int, e.span.end.byte_offset as int)
        },
        None => true,
    }
}

/// The start of the item one step finds: where the whitespace ends.
pub open spec fn item_start(src: Seq<u8>, p: SourcePos) -> int {
    skip_whitespace(src, p).byte_offset as int
}

/// One step of the lexer skips only whitespace before its item, and the
/// item covers its bytes (see `step_item_ok`). Where the step finds
/// nothing, it stops past the whitespace, at the end of the input or where
/// the rest of the input is not well-formed UTF-8.
pub proof fn law_step_covers_its_bytes(src: Seq<u8>, p: SourcePos)
    requires
        p.byte_offset <= src.len() <= usize::MAX,
    ensures
        step_item_ok(src, p),
        p.byte_offset <= item_start(src, p) <= lex_step(src, p).1.byte_offset <= src.len(),
        forall|k: int| p.byte_offset <= k < item_start(src, p) ==> is_whitespace_byte(#[trigger] src[k]),
        lex_step(src, p).0 is Some ==> item_start(src, p) < src.len() && !is_whitespace_byte(
            src[item_start(src, p)],
        ),
        lex_step(src, p).0 matches Some(Ok(t)) ==> t.span.start == item_start(src, p),
        lex_step(src, p).0 matches Some(Err(e)) ==> e.span.start.byte_offset == item_start(src, p),
        lex_step(src, p).0 is None ==> {
            &&& lex_step(src, p).1 == skip_whitespace(src, p)
            &&& (item_start(src, p) == src.len() || first_char(src.subrange(item_start(src, p), src.len() as int)) is None)
        },
{
    let start = skip_whitespace(src, p);
    lemma_skip_whitespace_bounds(src, p);
    lemma_skip_whitespace_skips_whitespace(src, p);
    lemma_lex_step_token(src, p);
    if start.byte_offset < src.len() {
        let rest = src.subrange(start.byte_offset as int, src.len() as int);
        match first_char(rest) {
            None => {},
            Some(c) => {
                lemma_first_char_width(rest);
                lemma_digits_end_bounds(src, pos_row(start));
                lemma_string_end_bounds(src, pos_row(start));
                if is_digit_char(c) {
                    lemma_first_char_ascii(rest);
                    assert(src[start.byte_offset as int] == rest[0]);
                    assert(digits_end(src, start) == digits_end(src, pos_row(start)));
                } else if ident_start(c) {
                    lemma_ident_end_bounds(src, pos_advance_char(start, c));
                    assert(ident_end(src, start) == ident_end(src, pos_advance_char(start, c)));
                }
            },
        }
    }
}

/// An ASCII decimal digit byte.
pub open spec fn is_digit_byte(b: u8) -> bool {
    48 <= b <= 57
}

proof fn lemma_digits_end_digits(src: Seq<u8>, p: SourcePos)
    requires
        p.byte_offset <= src.len() <= usize::MAX,
    ensures
        forall|k: int| p.byte_offset <= k < digits_end(src, p).byte_offset ==> is_digit_byte(#[trigger] src[k]),
        digits_end(src, p).byte_offset < src.len() ==> !is_digit_byte(src[digits_end(src, p).byte_offset as int]),
    decreases src.len() - p.byte_offset,
{
    if p.byte_offset < src.len() && p.byte_offset < usize::MAX && 48 <= src[p.byte_offset as int]
        <= 57 {
        lemma_digits_end_digits(src, pos_row(p));
    }
}

proof fn lemma_string_end_quote(src: Seq<u8>, q: SourcePos)
    requires
        q.byte_offset <= src.len() <= usize::MAX,
    ensures
        ({
            let e = string_end(src, q).byte_offset as int;
            ||| (q.byte_offset < e && src[e - 1] == 34 && forall|k: int|
                q.byte_offset <= k < e - 1 ==> #[trigger] src[k] != 34)
            ||| (e == src.len() && forall|k: int| q.byte_offset <= k < e ==> #[trigger] src[k] != 34)
        }),
    decreases src.len() - q.byte_offset,
{
    if q.byte_offset < src.len() && q.byte_offset < usize::MAX && src[q.byte_offset as int] != 34 {
        lemma_string_end_quote(src, pos_row(q));
    }
}

proof fn lemma_ident_end_stops(src: Seq<u8>, p: SourcePos)
    requires
        p.byte_offset <= src.len() <= usize::MAX,
    ensures
        first_char(src.subrange(ident_end(src, p).byte_offset as int, src.len() as int)) matches Some(d)
            ==> !ident_continue(d),
    decreases src.len() - p.byte_offset,
{
    if p.byte_offset < src.len() {
        let rest = src.subrange(p.byte_offset as int, src.len() as int);
        match first_char(rest) {
            Some(c) => {
                lemma_first_char_width(rest);
                if ident_continue(c) {
                    lemma_ident_end_stops(src, pos_advance_char(p, c));
                }
            },
            None => {},
        }
    } else {
        assert(src.subrange(p.byte_offset as int, src.len() as int).len() == 0);
    }
}

/// The shape of the tokens one step of the lexer gives:
/// - a string token starts with a double quote, holds none inside, and
///   either ends with one or runs to the end of the input;
/// - a number token is one or more ASCII digits, not followed by a digit;
/// - an identifier (or the keyword `struct`) starts with a character that
///   can start one and is not followed by a character that can go on with
///   one; it is the keyword exactly when its bytes are `struct`.
pub proof fn law_token_shapes(src: Seq<u8>, p: SourcePos)
    requires
        p.byte_offset <= src.len() <= usize::MAX,
    ensures
        lex_step(src, p).0 matches Some(Ok(t)) ==> {
            let n = t.lexeme.len() as int;
            let e = t.span.end as int;
            &&& t.kind == TokenKind::String ==> {
                &&& n >= 1
                &&& t.lexeme[0] == 34
                &&& forall|k: int| 1 <= k < n - 1 ==> #[trigger] t.lexeme[k] != 34
                &&& (n >= 2 && t.lexeme[n - 1] == 34) || e == src.len()
            }
            &&& t.kind == TokenKind::Number ==> {
                &&& n >= 1
                &&& forall|k: int| 0 <= k < n ==> is_digit_byte(#[trigger] t.lexeme[k])
                &&& e < src.len() ==> !is_digit_byte(src[e])
            }
            &&& (t.kind == TokenKind::Identifier || t.kind == TokenKind::Struct) ==> {
                &&& first_char(src.subrange(t.span.start as int, src.len() as int)) matches Some(c)
                    && ident_start(c)
                &&& first_char(src.subrange(e, src.len() as int)) matches Some(d) ==> !ident_continue(d)
                &&& (t.kind == TokenKind::Struct <==> t.lexeme == struct_keyword())
            }
        },
{
    law_step_covers_its_bytes(src, p);
    let start = skip_whitespace(src, p);
    if start.byte_offset < src.len() {
        let rest = src.subrange(start.byte_offset as int, src.len() as int);
        match first_char(rest) {
            None => {},
            Some(c) => {
                lemma_first_char_width(rest);
                if is_digit_char(c) {
                    lemma_first_char_ascii(rest);
                    assert(src[start.byte_offset as int] == rest[0]);
                    lemma_digits_end_digits(src, start);
                } else if ident_start(c) {
                    lemma_ident_end_stops(src, start);
                } else if c == '"' {
                    lemma_first_char_ascii(rest);
                    assert(src[start.byte_offset as int] == rest[0]);
                    lemma_string_end_quote(src, pos_row(start));
                    let t = lex_step(src, p).0->0->Ok_0;
                    assert forall|k: int| 1 <= k < t.lexeme.len() - 1 implies #[trigger] t.lexeme[k] != 34 by {
                        assert(t.lexeme[k] == src[start.byte_offset + k]);
                    }
                }
            },
        }
    }
}

/// The items that successive steps of the lexer give from `p` on, each with
/// the position reached after it, up to the first step that gives nothing.
pub open spec fn lex_items(src: Seq<u8>, p: SourcePos) -> Seq<(Result<TokenV, LexErrorV>, SourcePos)>
    decreases src.len() - p.byte_offset,
{
    let (r, q) = lex_step(src, p);
    match r {
        Some(item) => if p.byte_offset < q.byte_offset <= src.len() {
            seq![(item, q)] + lex_items(src, q)
        } else {
            seq![(item, q)]
        },
        None => seq![],
    }
}

/// Where an item starts.
pub open spec fn item_begin(it: Result<TokenV, LexErrorV>) -> int {
    match it {
        Ok(t) => t.span.start as int,
        Err(e) => e.span.start.byte_offset as int,
    }
}

/// Where an item ends.
pub open spec fn item_end(it: Result<TokenV, LexErrorV>) -> int {
    match it {
        Ok(t) => t.span.end as int,
        Err(e) => e.span.end.byte_offset as int,
    }
}

/// The bytes an item holds.
pub open spec fn item_lexeme(it: Result<TokenV, LexErrorV>) -> Seq<u8> {
    match it {
        Ok(t) => t.lexeme,
        Err(e) => e.lexeme,
    }
}

/// Where the lexer stands once the items from `p` on are read.
pub open spec fn lex_stop(src: Seq<u8>, p: SourcePos) -> SourcePos {
    let items = lex_items(src, p);
    if items.len() == 0 {
        p
    } else {
        items.last().1
    }
}

/// The tokens at the front of `items`, up to the first error.
pub open spec fn leading_tokens(items: Seq<(Result<TokenV, LexErrorV>, SourcePos)>) -> Seq<TokenV>
    decreases items.len(),
{
    if items.len() == 0 {
        seq![]
    } else {
        match items[0].0 {
            Ok(t) => seq![t] + leading_tokens(items.drop_first()),
            Err(_) => seq![],
        }
    }
}

proof fn lemma_lex_items_unfold(src: Seq<u8>, p: SourcePos)
    requires
        p.byte_offset <= src.len() <= usize::MAX,
    ensures
        lex_step(src, p).0 is None ==> lex_items(src, p).len() == 0,
        lex_step(src, p).0 matches Some(it) ==> {
            &&& p.byte_offset < lex_step(src, p).1.byte_offset <= src.len()
            &&& lex_items(src, p) == seq![(it, lex_step(src, p).1)] + lex_items(src, lex_step(src, p).1)
        },
{
    law_step_covers_its_bytes(src, p);
}

/// Successive calls of the lexer's `next` from `p` on give items whose spans
/// are not empty, lie in the source at or past `p`, hold the bytes they
/// cover and come in increasing order without overlapping; there are at
/// most as many as bytes are left. Every byte from `p` up to where the
/// lexer stops finding items is whitespace or lies in an item, and it stops
/// at the end of the input or where the rest is not well-formed UTF-8.
pub proof fn law_items_cover_the_source(src: Seq<u8>, p: SourcePos)
    requires
        p.byte_offset <= src.len() <= usize::MAX,
    ensures
        ({
            let items = lex_items(src, p);
            let stop = lex_stop(src, p);
            &&& items.len() <= src.len() - p.byte_offset
            &&& forall|i: int|
                0 <= i < items.len() ==> {
                    &&& p.byte_offset <= item_begin(#[trigger] items[i].0) < item_end(items[i].0) <= src.len()
                    &&& item_end(items[i].0) == items[i].1.byte_offset
                    &&& item_lexeme(items[i].0) == src.subrange(item_begin(items[i].0), item_end(items[i].0))
                }
            &&& forall|i: int, j: int|
                0 <= i < j < items.len() ==> item_end(#[trigger] items[i].0) <= item_begin(#[trigger] items[j].0)
            &&& lex_step(src, stop).0 is None
            &&& p.byte_offset <= stop.byte_offset <= item_start(src, stop) <= src.len()
            &&& forall|k: int|
                p.byte_offset <= k < item_start(src, stop) ==> is_whitespace_byte(#[trigger] src[k]) || exists|
                    i: int,
                |
                    0 <= i < items.len() && item_begin(#[trigger] items[i].0) <= k < item_end(items[i].0)
            &&& item_start(src, stop) == src.len() || first_char(
                src.subrange(item_start(src, stop), src.len() as int),
            ) is None
        }),
    decreases src.len() - p.byte_offset,
{
    law_step_covers_its_bytes(src, p);
    lemma_lex_items_unfold(src, p);
    let items = lex_items(src, p);
    let (r, q) = lex_step(src, p);
    match r {
        None => {},
        Some(it) => {
            law_items_cover_the_source(src, q);
            let rest = lex_items(src, q);
            law_step_covers_its_bytes(src, q);
            assert(items.len() == rest.len() + 1);
            assert(items[0] == (it, q));
            assert forall|i: int| 0 < i < items.len() implies #[trigger] items[i] == rest[i - 1] by {}
            if rest.len() > 0 {
                assert(items.last() == rest.last());
            }
            assert(lex_stop(src, p) == lex_stop(src, q));
            let stop = lex_stop(src, p);
            assert forall|i: int, j: int| 0 <= i < j < items.len() implies item_end(
                #[trigger] items[i].0,
            ) <= item_begin(#[trigger] items[j].0) by {
                if i > 0 {
                    assert(items[i] == rest[i - 1]);
                }
                assert(items[j] == rest[j - 1]);
            }
            assert forall|k: int|
                p.byte_offset <= k < item_start(src, stop) implies is_whitespace_byte(#[trigger] src[k]) || exists|
                i: int,
            | 0 <= i < items.len() && item_begin(#[trigger] items[i].0) <= k < item_end(items[i].0) by {
                if k < item_begin(it) {
                } else if k < item_end(it) {
                    assert(item_begin(items[0].0) <= k < item_end(items[0].0));
                } else if !is_whitespace_byte(src[k]) {
                    let j = choose|j: int| 0 <= j < rest.len() && item_begin(#[trigger] rest[j].0) <= k < item_end(rest[j].0);
                    assert(items[j + 1] == rest[j]);
                    assert(item_begin(items[j + 1].0) <= k < item_end(items[j + 1].0));
                }
            }
        },
    }
}

proof fn lemma_read_tokens_items(src: Seq<u8>, p: SourcePos, cap: nat, acc: Seq<TokenV>)
    requires
        p.byte_offset <= src.len() <= usize::MAX,
        acc.len() <= cap,
    ensures
        ({
            let items = lex_items(src, p);
            let lead = leading_tokens(items);
            let n = if lead.len() < cap - acc.len() { lead.len() as int } else { cap - acc.len() };
            let (ts, q) = read_tokens(src, p, cap, acc);
            &&& ts == acc + lead.take(n)
            &&& lex_items(src, q) == items.skip(if n + 1 < items.len() { n + 1 } else { items.len() as int })
        }),
    decreases src.len() - p.byte_offset,
{
    law_step_covers_its_bytes(src, p);
    lemma_lex_items_unfold(src, p);
    let items = lex_items(src, p);
    let (r, q) = lex_step(src, p);
    match r {
        None => {
            law_end_of_input_is_final(src, p);
            law_step_covers_its_bytes(src, q);
            lemma_lex_items_unfold(src, q);
            assert(acc + leading_tokens(items).take(0) =~= acc);
            assert(items.skip(0) =~= items);
        },
        Some(Err(e)) => {
            assert(leading_tokens(items) =~= seq![]);
            assert(acc + leading_tokens(items).take(0) =~= acc);
            assert(items.skip(1) =~= lex_items(src, q));
        },
        Some(Ok(t)) => {
            let rest = lex_items(src, q);
            assert(items.drop_first() =~= rest);
            assert(leading_tokens(items) == seq![t] + leading_tokens(rest));
            if acc.len() < cap {
                lemma_read_tokens_items(src, q, cap, acc.push(t));
                let lr = leading_tokens(rest);
                let n2 = if lr.len() < cap - acc.len() - 1 { lr.len() as int } else { cap - acc.len() - 1 };
                assert((seq![t] + lr).take(n2 + 1) =~= seq![t] + lr.take(n2));
                assert(acc.push(t) + lr.take(n2) =~= acc + (seq![t] + lr.take(n2)));
                let m2 = if n2 + 1 < rest.len() { n2 + 1 } else { rest.len() as int };
                assert(items.skip(m2 + 1) =~= rest.skip(m2));
            } else {
                assert(acc + leading_tokens(items).take(0) =~= acc);
                assert(items.skip(1) =~= rest);
            }
        },
    }
}

/// What `read_all` stores (the tokens `read_tokens` gives) are the tokens
/// that successive calls of `next` give first, up to the first error or the
/// end, as many as fit; besides those it consumes one item more (the error
/// that stopped it, or the first token that did not fit), so that later
/// calls of `next` give the items after it.
pub proof fn law_read_all_takes_the_leading_tokens(src: Seq<u8>, p: SourcePos, cap: nat)
    requires
        p.byte_offset <= src.len() <= usize::MAX,
    ensures
        ({
            let items = lex_items(src, p);
            let lead = leading_tokens(items);
            let n = if lead.len() < cap { lead.len() as int } else { cap as int };
            let (ts, q) = read_tokens(src, p, cap, seq![]);
            &&& ts == lead.take(n)
            &&& lex_items(src, q) == items.skip(if n + 1 < items.len() { n + 1 } else { items.len() as int })
        }),
{
    lemma_read_tokens_items(src, p, cap, seq![]);
    let lead = leading_tokens(lex_items(src, p));
    let n = if lead.len() < cap { lead.len() as int } else { cap as int };
    assert(seq![] + lead.take(n) =~= lead.take(n));
}

/// The source from byte `k` on is well-formed UTF-8.
pub open spec fn rest_well_formed(src: Seq<u8>, k: int) -> bool {
    vstd::utf8::valid_utf8(src.subrange(k, src.len() as int))
}

proof fn lemma_rest_after_ascii(src: Seq<u8>, k: int)
    requires
        0 <= k < src.len(),
        rest_well_formed(src, k),
        src[k] < 128,
    ensures
        rest_well_formed(src, k + 1),
{
    let suf = src.subrange(k, src.len() as int);
    lemma_valid_after_ascii(suf);
    assert(suf.subrange(1, suf.len() as int) =~= src.subrange(k + 1, src.len() as int));
}

proof fn lemma_rest_after_char(src: Seq<u8>, k: int)
    requires
        0 <= k < src.len(),
        first_char(src.subrange(k, src.len() as int)) is Some,
    ensures
        rest_well_formed(src, k + utf8_width(first_char(src.subrange(k, src.len() as int))->0)),
{
    let suf = src.subrange(k, src.len() as int);
    lemma_first_char_rest(suf);
    lemma_first_char_width(suf);
    let w = utf8_width(first_char(suf)->0) as int;
    assert(suf.subrange(w, suf.len() as int) =~= src.subrange(k + w, src.len() as int));
}

proof fn lemma_rest_after_quote(src: Seq<u8>, s: int, e: int)
    requires
        0 <= s < e <= src.len(),
        rest_well_formed(src, s),
        src[e - 1] == 34,
    ensures
        rest_well_formed(src, e),
{
    let suf = src.subrange(s, src.len() as int);
    let i = e - 1 - s;
    assert(suf[i] == 34);
    vstd::utf8::is_char_boundary_iff_not_is_continuation_byte(suf, i);
    vstd::utf8::valid_utf8_split(suf, i);
    assert(suf.subrange(i, suf.len() as int) =~= src.subrange(e - 1, src.len() as int));
    lemma_rest_after_ascii(src, e - 1);
}

proof fn lemma_skip_whitespace_rest(src: Seq<u8>, p: SourcePos)
    requires
        p.byte_offset <= src.len() <= usize::MAX,
        rest_well_formed(src, p.byte_offset as int),
    ensures
        rest_well_formed(src, skip_whitespace(src, p).byte_offset as int),
    decreases src.len() - p.byte_offset,
{
    if p.byte_offset >= src.len() || p.byte_offset >= usize::MAX {
    } else if is_blank(src[p.byte_offset as int]) {
        lemma_rest_after_ascii(src, p.byte_offset as int);
        lemma_skip_whitespace_rest(src, pos_row(p));
    } else if src[p.byte_offset as int] == 10 {
        lemma_rest_after_ascii(src, p.byte_offset as int);
        lemma_skip_whitespace_rest(src, pos_newline(p));
    }
}

proof fn lemma_digits_end_rest(src: Seq<u8>, p: SourcePos)
    requires
        p.byte_offset <= src.len() <= usize::MAX,
        rest_well_formed(src, p.byte_offset as int),
    ensures
        rest_well_formed(src, digits_end(src, p).byte_offset as int),
    decreases src.len() - p.byte_offset,
{
    if p.byte_offset < src.len() && p.byte_offset < usize::MAX && 48 <= src[p.byte_offset as int]
        <= 57 {
        lemma_rest_after_ascii(src, p.byte_offset as int);
        lemma_digits_end_rest(src, pos_row(p));
    }
}

proof fn lemma_ident_end_rest(src: Seq<u8>, p: SourcePos)
    requires
        p.byte_offset <= src.len() <= usize::MAX,
        rest_well_formed(src, p.byte_offset as int),
    ensures
        rest_well_formed(src, ident_end(src, p).byte_offset as int),
    decreases src.len() - p.byte_offset,
{
    if p.byte_offset < src.len() {
        let rest = src.subrange(p.byte_offset as int, src.len() as int);
        match first_char(rest) {
            Some(c) => {
                lemma_first_char_width(rest);
                if ident_continue(c) {
                    lemma_rest_after_char(src, p.byte_offset as int);
                    lemma_ident_end_rest(src, pos_advance_char(p, c));
                }
            },
            None => {},
        }
    }
}

/// From where the rest of the source is well-formed UTF-8, one step of the
/// lexer finds something unless only whitespace is left, and the rest after
/// it is well-formed again.
proof fn lemma_step_keeps_rest_well_formed(src: Seq<u8>, p: SourcePos)
    requires
        p.byte_offset <= src.len() <= usize::MAX,
        rest_well_formed(src, p.byte_offset as int),
    ensures
        rest_well_formed(src, lex_step(src, p).1.byte_offset as int),
        lex_step(src, p).0 is None ==> item_start(src, p) == src.len(),
{
    law_step_covers_its_bytes(src, p);
    lemma_skip_whitespace_rest(src, p);
    let start = skip_whitespace(src, p);
    let s = start.byte_offset as int;
    if s < src.len() {
        let rest = src.subrange(s, src.len() as int);
        lemma_valid_has_first_char(rest);
        let c = first_char(rest)->0;
        lemma_first_char_width(rest);
        if is_digit_char(c) {
            lemma_digits_end_rest(src, start);
        } else if ident_start(c) {
            lemma_ident_end_rest(src, start);
        } else if c == '"' {
            lemma_first_char_ascii(rest);
            assert(src[s] == rest[0]);
            lemma_rest_after_ascii(src, s);
            lemma_string_end_quote(src, pos_row(start));
            lemma_string_end_bounds(src, pos_row(start));
            let e = string_end(src, pos_row(start)).byte_offset as int;
            if e < src.len() {
                lemma_rest_after_quote(src, s, e);
            } else {
                assert(src.subrange(e, src.len() as int) =~= Seq::<u8>::empty());
            }
        } else if punctuation_kind(c) is Some {
            lemma_first_char_ascii(rest);
            assert(src[s] == rest[0]);
            lemma_rest_after_ascii(src, s);
        } else {
            lemma_rest_after_char(src, s);
        }
    }
}

/// On a source that is well-formed UTF-8 from `p` on, the lexer stops
/// finding items only at the end of the input: with
/// `law_items_cover_the_source`, every byte from `p` on that is not
/// whitespace lies in one of the items successive calls of `next` give.
pub proof fn law_well_formed_source_is_read_to_the_end(src: Seq<u8>, p: SourcePos)
    requires
        p.byte_offset <= src.len() <= usize::MAX,
        rest_well_formed(src, p.byte_offset as int),
    ensures
        item_start(src, lex_stop(src, p)) == src.len(),
    decreases src.len() - p.byte_offset,
{
    lemma_step_keeps_rest_well_formed(src, p);
    lemma_lex_items_unfold(src, p);
    law_step_covers_its_bytes(src, p);
    let (r, q) = lex_step(src, p);
    match r {
        None => {},
        Some(it) => {
            law_well_formed_source_is_read_to_the_end(src, q);
            let items = lex_items(src, p);
            let rest = lex_items(src, q);
            if rest.len() > 0 {
                assert(items.last() == rest.last());
            }
            assert(lex_stop(src, p) == lex_stop(src, q));
        },
    }
}

proof fn lemma_same_first_scalar(suf: Seq<u8>, bytes: Seq<u8>, w: int)
    requires
        vstd::utf8::valid_utf8(suf),
        suf.len() > 0,
        w == vstd::utf8::length_of_first_scalar(suf),
        w <= bytes.len(),
        forall|i: int| 0 <= i < w ==> bytes[i] == suf[i],
    ensures
        vstd::utf8::valid_first_scalar(bytes),
        vstd::utf8::length_of_first_scalar(bytes) == w,
        vstd::utf8::decode_first_scalar(bytes) == vstd::utf8::decode_first_scalar(suf),
{
    assert(bytes[0] == suf[0]);
    if w >= 2 {
        assert(bytes[1] == suf[1]);
    }
    if w >= 3 {
        assert(bytes[2] == suf[2]);
    }
    if w >= 4 {
        assert(bytes[3] == suf[3]);
    }
}

/// The bytes an identifier runs over from `p` are well-formed UTF-8, and
/// every character they encode can go on with an identifier.
proof fn lemma_ident_chars(src: Seq<u8>, p: SourcePos)
    requires
        p.byte_offset <= src.len() <= usize::MAX,
    ensures
        ({
            let bytes = src.subrange(p.byte_offset as int, ident_end(src, p).byte_offset as int);
            &&& vstd::utf8::valid_utf8(bytes)
            &&& forall|i: int|
                0 <= i < vstd::utf8::decode_utf8(bytes).len() ==> ident_continue(
                    #[trigger] vstd::utf8::decode_utf8(bytes)[i],
                )
        }),
    decreases src.len() - p.byte_offset,
{
    lemma_ident_end_bounds(src, p);
    let e = ident_end(src, p).byte_offset as int;
    let k = p.byte_offset as int;
    let bytes = src.subrange(k, e);
    if p.byte_offset < src.len() {
        let suf = src.subrange(k, src.len() as int);
        match first_char(suf) {
            Some(c) => {
                lemma_first_char_width(suf);
                if ident_continue(c) {
                    let q = pos_advance_char(p, c);
                    lemma_ident_chars(src, q);
                    lemma_ident_end_bounds(src, q);
                    lemma_first_char_rest(suf);
                    let w = utf8_width(c) as int;
                    assert(ident_end(src, p) == ident_end(src, q));
                    let tail = src.subrange(k + w, e);
                    assert(vstd::utf8::decode_utf8(suf)[0] == c);
                    lemma_same_first_scalar(suf, bytes, w);
                    assert(vstd::utf8::pop_first_scalar(bytes) =~= tail);
                    assert(vstd::utf8::valid_utf8(bytes));
                    assert(vstd::utf8::decode_utf8(bytes) == seq![c] + vstd::utf8::decode_utf8(tail));
                    assert forall|i: int| 0 <= i < vstd::utf8::decode_utf8(bytes).len() implies ident_continue(
                        #[trigger] vstd::utf8::decode_utf8(bytes)[i],
                    ) by {
                        if i > 0 {
                            assert(vstd::utf8::decode_utf8(bytes)[i] == vstd::utf8::decode_utf8(tail)[i - 1]);
                        }
                    }
                } else {
                    assert(bytes =~= Seq::<u8>::empty());
                }
            },
            None => {
                assert(bytes =~= Seq::<u8>::empty());
            },
        }
    } else {
        assert(bytes =~= Seq::<u8>::empty());
    }
}

/// An identifier token (or the keyword `struct`) one step of the lexer
/// gives is well-formed UTF-8: its first character can start an identifier
/// and every character of it can go on with one.
pub proof fn law_identifier_characters(src: Seq<u8>, p: SourcePos)
    requires
        p.byte_offset <= src.len() <= usize::MAX,
    ensures
        lex_step(src, p).0 matches Some(Ok(t)) ==> (t.kind == TokenKind::Identifier || t.kind
            == TokenKind::Struct) ==> {
            let cs = vstd::utf8::decode_utf8(t.lexeme);
            &&& vstd::utf8::valid_utf8(t.lexeme)
            &&& cs.len() >= 1
            &&& ident_start(cs[0])
            &&& forall|i: int| 0 <= i < cs.len() ==> ident_continue(#[trigger] cs[i])
        },
{
    law_step_covers_its_bytes(src, p);
    let start = skip_whitespace(src, p);
    lemma_skip_whitespace_bounds(src, p);
    if start.byte_offset < src.len() {
        let s = start.byte_offset as int;
        let suf = src.subrange(s, src.len() as int);
        match first_char(suf) {
            None => {},
            Some(c) => {
                if !is_digit_char(c) && ident_start(c) {
                    lemma_ident_chars(src, start);
                    lemma_first_char_width(suf);
                    lemma_first_char_rest(suf);
                    let q = pos_advance_char(start, c);
                    lemma_ident_end_bounds(src, q);
                    assert(ident_end(src, start) == ident_end(src, q));
                    let e = ident_end(src, start).byte_offset as int;
                    let bytes = src.subrange(s, e);
                    let w = utf8_width(c) as int;
                    assert(vstd::utf8::decode_utf8(suf)[0] == c);
                    lemma_same_first_scalar(suf, bytes, w);
                    assert(vstd::utf8::decode_utf8(bytes)[0] == c);
                }
            },
        }
    }
}

/// Where the first character past the whitespace is a letter (an ASCII
/// letter, or a character beyond ASCII with the Unicode `Alphabetic`
/// property) or `_`, one step of the lexer gives an identifier token (or the
/// keyword `struct`) that starts there, never an error.
pub proof fn law_letters_start_identifiers(src: Seq<u8>, p: SourcePos)
    requires
        p.byte_offset <= src.len() <= usize::MAX,
    ensures
        ({
            let s = item_start(src, p);
            let c = first_char(src.subrange(s, src.len() as int))->0;
            let r = lex_step(src, p).0;
            (s < src.len() && first_char(src.subrange(s, src.len() as int)) is Some && (65 <= (c as u32) <= 90
                || 97 <= (c as u32) <= 122 || (128 <= (c as u32) && alphabetic(c)) || c == '_')) ==> {
                &&& r is Some
                &&& r->0 is Ok
                &&& (r->0->Ok_0.kind == TokenKind::Identifier || r->0->Ok_0.kind == TokenKind::Struct)
                &&& r->0->Ok_0.span.start == s
            }
        }),
{
    law_step_covers_its_bytes(src, p);
}

} // verus!
