use raph::syntax::error::{LexError, LexErrorKind, ParseError, ParseErrorKind, SyntacticError};
use raph::syntax::lexer::Lexer;
use raph::syntax::token::{Token, TokenKind};
use raph::syntax::{SourceFile, SourcePos, SourceSpan, Span};

fn lex_all(src: &[u8]) -> Vec<Result<(TokenKind, Vec<u8>, usize, usize), (LexErrorKind, usize, usize)>> {
    let file = SourceFile { id: 7, source: src };
    let mut lexer = Lexer::new(&file);
    let mut out = Vec::new();
    while let Some(r) = lexer.next() {
        match r {
            Ok(t) => out.push(Ok((t.kind, t.lexeme.to_vec(), t.span.start, t.span.end))),
            Err(e) => out.push(Err((e.kind, e.span.start.byte_offset, e.span.end.byte_offset))),
        }
    }
    out
}

fn placeholder<'a>() -> Token<'a> {
    Token { lexeme: b"", kind: TokenKind::EndOfFile, span: Span::new(0, 0, 0) }
}

#[test]
fn lexer_reads_identifiers_punctuation_and_numbers() {
    let toks = lex_all(b"def x = 42;");
    assert_eq!(
        toks,
        vec![
            Ok((TokenKind::Identifier, b"def".to_vec(), 0, 3)),
            Ok((TokenKind::Identifier, b"x".to_vec(), 4, 5)),
            Ok((TokenKind::Equal, b"=".to_vec(), 6, 7)),
            Ok((TokenKind::Number, b"42".to_vec(), 8, 10)),
            Ok((TokenKind::Semicolon, b";".to_vec(), 10, 11)),
        ]
    );
}

#[test]
fn lexer_reads_every_punctuation_mark() {
    let toks = lex_all(b"=,:{}();");
    let kinds: Vec<TokenKind> = toks.into_iter().map(|r| r.unwrap().0).collect();
    assert_eq!(
        kinds,
        vec![
            TokenKind::Equal,
            TokenKind::Comma,
            TokenKind::Colon,
            TokenKind::LBrace,
            TokenKind::RBrace,
            TokenKind::LParen,
            TokenKind::RParen,
            TokenKind::Semicolon,
        ]
    );
}

#[test]
fn lexer_knows_the_struct_keyword() {
    let toks = lex_all(b"struct structure _s1");
    assert_eq!(
        toks,
        vec![
            Ok((TokenKind::Struct, b"struct".to_vec(), 0, 6)),
            Ok((TokenKind::Identifier, b"structure".to_vec(), 7, 16)),
            Ok((TokenKind::Identifier, b"_s1".to_vec(), 17, 20)),
        ]
    );
}

#[test]
fn lexer_number_stops_at_a_letter() {
    let toks = lex_all(b"12ab");
    assert_eq!(
        toks,
        vec![Ok((TokenKind::Number, b"12".to_vec(), 0, 2)), Ok((TokenKind::Identifier, b"ab".to_vec(), 2, 4))]
    );
}

#[test]
fn lexer_string_keeps_its_quotes() {
    let toks = lex_all(b"\"hi there\" x");
    assert_eq!(
        toks,
        vec![
            Ok((TokenKind::String, b"\"hi there\"".to_vec(), 0, 10)),
            Ok((TokenKind::Identifier, b"x".to_vec(), 11, 12)),
        ]
    );
}

#[test]
fn lexer_unterminated_string_runs_to_the_end() {
    let toks = lex_all(b"\"abc");
    assert_eq!(toks, vec![Ok((TokenKind::String, b"\"abc".to_vec(), 0, 4))]);
}

#[test]
fn lexer_identifier_with_non_ascii_letters() {
    let src = "h\u{e9}llo w\u{f6}rld".as_bytes();
    let toks = lex_all(src);
    assert_eq!(
        toks,
        vec![
            Ok((TokenKind::Identifier, "h\u{e9}llo".as_bytes().to_vec(), 0, 6)),
            Ok((TokenKind::Identifier, "w\u{f6}rld".as_bytes().to_vec(), 7, 13)),
        ]
    );
}

#[test]
fn lexer_reports_an_unexpected_character() {
    let toks = lex_all(b"a # b");
    assert_eq!(
        toks,
        vec![
            Ok((TokenKind::Identifier, b"a".to_vec(), 0, 1)),
            Err((LexErrorKind::UnexpectedChar('#'), 2, 3)),
            Ok((TokenKind::Identifier, b"b".to_vec(), 4, 5)),
        ]
    );
}

#[test]
fn lexer_unexpected_multibyte_character_spans_its_bytes() {
    let file = SourceFile { id: 2, source: "\u{2192}".as_bytes() };
    let mut lexer = Lexer::new(&file);
    match lexer.next() {
        Some(Err(e)) => {
            assert_eq!(e.kind, LexErrorKind::UnexpectedChar('\u{2192}'));
            assert_eq!(e.span.start, SourcePos { file: 2, byte_offset: 0, line: 0, column: 0 });
            assert_eq!(e.span.end, SourcePos { file: 2, byte_offset: 3, line: 0, column: 1 });
            assert_eq!(e.lexeme, "\u{2192}".as_bytes());
        }
        other => panic!("expected an error, got {:?}", other),
    }
    assert!(lexer.next().is_none());
}

#[test]
fn lexer_empty_and_blank_input_give_nothing() {
    assert!(lex_all(b"").is_empty());
    assert!(lex_all(b"  \t\r\n\n ").is_empty());
}

#[test]
fn lexer_tracks_lines_and_columns() {
    let file = SourceFile { id: 1, source: b"ab\n  cd" };
    let mut lexer = Lexer::new(&file);
    let first = lexer.next().unwrap().unwrap();
    assert_eq!(first.span, Span::new(1, 0, 2));
    let second = lexer.next().unwrap().unwrap();
    assert_eq!(second.span, Span::new(1, 5, 7));
    assert_eq!(second.lexeme, b"cd");
    // an error carries full positions: put one on the second line
    let file = SourceFile { id: 1, source: b"x\n  %" };
    let mut lexer = Lexer::new(&file);
    lexer.next();
    match lexer.next() {
        Some(Err(e)) => {
            assert_eq!(e.span.start, SourcePos { file: 1, byte_offset: 4, line: 1, column: 2 });
            assert_eq!(e.span.end, SourcePos { file: 1, byte_offset: 5, line: 1, column: 3 });
        }
        other => panic!("expected an error, got {:?}", other),
    }
}

#[test]
fn lexer_invalid_utf8_ends_the_input() {
    // the rest of the input is decoded as a whole, so bytes that are not
    // UTF-8 anywhere ahead stop the lexer at once
    assert!(lex_all(&[b'a', b' ', 0xff, b'b']).is_empty());
    let toks = lex_all(&[b'a', b' ', b'b', 0xc3]);
    assert!(toks.is_empty());
}

#[test]
fn read_all_fills_the_front_of_the_slice() {
    let file = SourceFile { id: 0, source: b"a b" };
    let mut lexer = Lexer::new(&file);
    let mut buf = [placeholder(); 4];
    let n = lexer.read_all(&mut buf);
    assert_eq!(n, 2);
    assert_eq!(buf[0].lexeme, b"a");
    assert_eq!(buf[1].lexeme, b"b");
    assert_eq!(buf[2], placeholder());
    assert_eq!(buf[3], placeholder());
}

#[test]
fn read_all_stops_when_the_slice_is_full() {
    let file = SourceFile { id: 0, source: b"a b c d" };
    let mut lexer = Lexer::new(&file);
    let mut buf = [placeholder(); 2];
    let n = lexer.read_all(&mut buf);
    assert_eq!(n, 2);
    assert_eq!(buf[0].lexeme, b"a");
    assert_eq!(buf[1].lexeme, b"b");
    // the third token was read and dropped
    let next = lexer.next().unwrap().unwrap();
    assert_eq!(next.lexeme, b"d");
}

#[test]
fn read_all_stops_at_the_first_error() {
    let file = SourceFile { id: 0, source: b"a ? b" };
    let mut lexer = Lexer::new(&file);
    let mut buf = [placeholder(); 4];
    let n = lexer.read_all(&mut buf);
    assert_eq!(n, 1);
    assert_eq!(buf[0].lexeme, b"a");
    assert_eq!(buf[1], placeholder());
}

#[test]
fn read_all_on_empty_input_stores_nothing() {
    let file = SourceFile { id: 0, source: b"" };
    let mut lexer = Lexer::new(&file);
    let mut buf = [placeholder(); 1];
    assert_eq!(lexer.read_all(&mut buf), 0);
}

#[test]
fn source_pos_steps() {
    let mut p = SourcePos::start_of_file(3);
    assert_eq!(p, SourcePos { file: 3, byte_offset: 0, line: 0, column: 0 });
    p.row();
    assert_eq!(p, SourcePos { file: 3, byte_offset: 1, line: 0, column: 1 });
    p.newline();
    assert_eq!(p, SourcePos { file: 3, byte_offset: 2, line: 1, column: 0 });
    p.advance_by_char('\u{e9}');
    assert_eq!(p, SourcePos { file: 3, byte_offset: 4, line: 1, column: 1 });
    p.advance_by_char('\u{1f600}');
    assert_eq!(p, SourcePos { file: 3, byte_offset: 8, line: 1, column: 2 });
}

#[test]
fn spans() {
    assert_eq!(Span::new(1, 2, 3), Span { file: 1, start: 2, end: 3 });
    assert_eq!(Span::empty(4, 9), Span { file: 4, start: 9, end: 9 });
}

#[test]
fn syntactic_error_from_either_error() {
    let pos = SourcePos::start_of_file(0);
    let lex = LexError { kind: LexErrorKind::InvalidToken, span: SourceSpan { start: pos, end: pos }, lexeme: b"" };
    assert_eq!(SyntacticError::from(lex), SyntacticError::Lex(lex));
    let parse_err = ParseError {
        kind: ParseErrorKind::UnexpectedEndOfInput,
        span: Span::empty(0, 0),
        expected: vec![TokenKind::RParen],
        found: None,
    };
    assert_eq!(SyntacticError::from(parse_err.clone()), SyntacticError::Parse(parse_err));
}

#[test]
fn tokens_hold_the_bytes_their_spans_cover_in_order() {
    let src: &[u8] = "let  x = \"s t\" ; y\u{e9}z 12\n(\n)".as_bytes();
    let file = SourceFile { id: 0, source: src };
    let mut lexer = Lexer::new(&file);
    let mut buf = [placeholder(); 16];
    let n = lexer.read_all(&mut buf);
    assert_eq!(n, 9);
    let mut last_end = 0;
    for t in &buf[..n] {
        assert!(last_end <= t.span.start && t.span.start <= t.span.end && t.span.end <= src.len());
        assert_eq!(t.lexeme, &src[t.span.start..t.span.end]);
        last_end = t.span.end;
    }
}

#[test]
fn lexer_stays_at_the_end_once_there() {
    let file = SourceFile { id: 0, source: b"a  \n " };
    let mut lexer = Lexer::new(&file);
    assert!(lexer.next().is_some());
    assert!(lexer.next().is_none());
    assert!(lexer.next().is_none());
    assert!(lexer.next().is_none());
    let mut buf = [placeholder(); 2];
    assert_eq!(lexer.read_all(&mut buf), 0);
}
