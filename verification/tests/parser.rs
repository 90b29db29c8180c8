use raph::spine::Literal;
use raph::syntax::error::{ParseError, ParseErrorKind};
use raph::syntax::parser::{parse, parse_checked};
use raph::syntax::token::{Token, TokenKind};
use raph::syntax::tree::{
    Binder, DefBody, InfixOp, PatternMatchArm, RecordField, SyntaxExpr, SyntaxPattern, SyntaxTree,
    SyntaxTreeDeclaration,
};
use raph::syntax::Span;

const FILE: usize = 5;

fn sp(start: usize, end: usize) -> Span {
    Span::new(FILE, start, end)
}

fn tok<'a>(kind: TokenKind, lexeme: &'a [u8], start: usize, end: usize) -> (Token<'a>, Span) {
    (Token { lexeme, kind, span: sp(start, end) }, sp(0, 0))
}

fn constructor(name: &str, start: usize, end: usize) -> SyntaxExpr {
    SyntaxExpr::Constructor { namespace: vec![], name: name.to_string(), span: sp(start, end) }
}

fn var(name: &str, start: usize, end: usize) -> SyntaxExpr {
    SyntaxExpr::Var { namespace: vec![], member: name.to_string(), span: sp(start, end) }
}

fn lit_nat(n: u64, start: usize, end: usize) -> SyntaxExpr {
    SyntaxExpr::Lit { value: Literal::Nat(n), span: sp(start, end) }
}

fn run(tokens: &[(Token, Span)]) -> (SyntaxTree, Vec<ParseError>) {
    let (tree, errors) = parse(tokens, sp(0, 0));
    let checked = parse_checked(tokens, sp(0, 0)).expect("the input is acceptable");
    assert_eq!(checked.0.as_ref(), tree.as_ref());
    assert_eq!(checked.1, errors);
    for e in &errors {
        assert_eq!(e.found.is_none(), e.kind == ParseErrorKind::UnexpectedEndOfInput);
    }
    (tree.expect("a tree always comes back"), errors)
}

#[test]
fn parse_empty_input() {
    let (tree, errors) = run(&[]);
    assert_eq!(tree, SyntaxTree { declarations: vec![] });
    assert!(errors.is_empty());
}

#[test]
fn parse_simple_def() {
    // def f : Nat = 1
    let tokens = [
        tok(TokenKind::Def, b"def", 0, 3),
        tok(TokenKind::LowerIdentifier, b"f", 4, 5),
        tok(TokenKind::Colon, b":", 6, 7),
        tok(TokenKind::UpperIdentifier, b"Nat", 8, 11),
        tok(TokenKind::Equal, b"=", 12, 13),
        tok(TokenKind::Number, b"1", 14, 15),
    ];
    let (tree, errors) = run(&tokens);
    assert!(errors.is_empty());
    assert_eq!(
        tree.declarations,
        vec![SyntaxTreeDeclaration::Def {
            span: sp(0, 15),
            name: "f".to_string(),
            binders: vec![],
            return_type: constructor("Nat", 8, 11),
            body: DefBody::Expr(lit_nat(1, 14, 15)),
        }]
    );
}

#[test]
fn parse_def_without_body_recovers() {
    // def f : Nat ;
    let tokens = [
        tok(TokenKind::Def, b"def", 0, 3),
        tok(TokenKind::LowerIdentifier, b"f", 4, 5),
        tok(TokenKind::Colon, b":", 6, 7),
        tok(TokenKind::UpperIdentifier, b"Nat", 8, 11),
        tok(TokenKind::Semicolon, b";", 12, 13),
    ];
    let (tree, errors) = run(&tokens);
    assert_eq!(
        tree.declarations,
        vec![SyntaxTreeDeclaration::Def {
            span: sp(0, 13),
            name: "f".to_string(),
            binders: vec![],
            return_type: constructor("Nat", 8, 11),
            body: DefBody::Expr(SyntaxExpr::Hole(sp(12, 13))),
        }]
    );
    assert_eq!(
        errors,
        vec![
            ParseError {
                kind: ParseErrorKind::UnexpectedToken,
                span: sp(12, 13),
                expected: vec![TokenKind::Equal, TokenKind::Pipe],
                found: Some(TokenKind::Semicolon),
            },
            ParseError {
                kind: ParseErrorKind::UnexpectedToken,
                span: sp(12, 13),
                expected: vec![],
                found: Some(TokenKind::Semicolon),
            },
        ]
    );
}

#[test]
fn parse_stray_token_at_top_level() {
    let tokens = [tok(TokenKind::RParen, b")", 0, 1)];
    let (tree, errors) = run(&tokens);
    assert!(tree.declarations.is_empty());
    assert_eq!(
        errors,
        vec![ParseError {
            kind: ParseErrorKind::UnexpectedToken,
            span: sp(0, 1),
            expected: vec![],
            found: Some(TokenKind::RParen),
        }]
    );
}

#[test]
fn parse_precedence_of_infix_operators() {
    // eval 1 + 2 * 3 ;
    let tokens = [
        tok(TokenKind::Eval, b"eval", 0, 4),
        tok(TokenKind::Number, b"1", 5, 6),
        tok(TokenKind::Plus, b"+", 7, 8),
        tok(TokenKind::Number, b"2", 9, 10),
        tok(TokenKind::Star, b"*", 11, 12),
        tok(TokenKind::Number, b"3", 13, 14),
        tok(TokenKind::Semicolon, b";", 15, 16),
    ];
    let (tree, errors) = run(&tokens);
    assert!(errors.is_empty());
    let product = SyntaxExpr::InfixOp {
        span: sp(9, 14),
        op: InfixOp::Mul,
        lhs: Box::new(lit_nat(2, 9, 10)),
        rhs: Box::new(lit_nat(3, 13, 14)),
    };
    let sum = SyntaxExpr::InfixOp { span: sp(5, 14), op: InfixOp::Add, lhs: Box::new(lit_nat(1, 5, 6)), rhs: Box::new(product) };
    assert_eq!(tree.declarations, vec![SyntaxTreeDeclaration::Eval { span: sp(0, 16), expr: sum }]);
}

#[test]
fn parse_subtraction_is_left_associative_and_comparison_binds_loosest() {
    // eval a - b - c < d ;
    let tokens = [
        tok(TokenKind::Eval, b"eval", 0, 4),
        tok(TokenKind::LowerIdentifier, b"a", 5, 6),
        tok(TokenKind::Minus, b"-", 7, 8),
        tok(TokenKind::LowerIdentifier, b"b", 9, 10),
        tok(TokenKind::Minus, b"-", 11, 12),
        tok(TokenKind::LowerIdentifier, b"c", 13, 14),
        tok(TokenKind::Less, b"<", 15, 16),
        tok(TokenKind::LowerIdentifier, b"d", 17, 18),
        tok(TokenKind::Semicolon, b";", 19, 20),
    ];
    let (tree, errors) = run(&tokens);
    assert!(errors.is_empty());
    let ab = SyntaxExpr::InfixOp { span: sp(5, 10), op: InfixOp::Sub, lhs: Box::new(var("a", 5, 6)), rhs: Box::new(var("b", 9, 10)) };
    let abc = SyntaxExpr::InfixOp { span: sp(5, 14), op: InfixOp::Sub, lhs: Box::new(ab), rhs: Box::new(var("c", 13, 14)) };
    let cmp = SyntaxExpr::InfixOp { span: sp(5, 18), op: InfixOp::Lt, lhs: Box::new(abc), rhs: Box::new(var("d", 17, 18)) };
    assert_eq!(tree.declarations, vec![SyntaxTreeDeclaration::Eval { span: sp(0, 20), expr: cmp }]);
}

#[test]
fn parse_application_and_projection() {
    // eval f x.y ;
    let tokens = [
        tok(TokenKind::Eval, b"eval", 0, 4),
        tok(TokenKind::LowerIdentifier, b"f", 5, 6),
        tok(TokenKind::LowerIdentifier, b"x", 7, 8),
        tok(TokenKind::Dot, b".", 8, 9),
        tok(TokenKind::LowerIdentifier, b"y", 9, 10),
        tok(TokenKind::Semicolon, b";", 10, 11),
    ];
    let (tree, errors) = run(&tokens);
    assert!(errors.is_empty());
    let proj = SyntaxExpr::Proj { span: sp(7, 10), value: Box::new(var("x", 7, 8)), field: "y".to_string() };
    let app = SyntaxExpr::App { span: sp(5, 10), fun: Box::new(var("f", 5, 6)), arg: Box::new(proj) };
    assert_eq!(tree.declarations, vec![SyntaxTreeDeclaration::Eval { span: sp(0, 11), expr: app }]);
}

#[test]
fn parse_pi_type_with_explicit_binder() {
    // extern f : (x : Nat) -> Nat
    let tokens = [
        tok(TokenKind::Extern, b"extern", 0, 6),
        tok(TokenKind::LowerIdentifier, b"f", 7, 8),
        tok(TokenKind::Colon, b":", 9, 10),
        tok(TokenKind::LParen, b"(", 11, 12),
        tok(TokenKind::LowerIdentifier, b"x", 12, 13),
        tok(TokenKind::Colon, b":", 14, 15),
        tok(TokenKind::UpperIdentifier, b"Nat", 16, 19),
        tok(TokenKind::RParen, b")", 19, 20),
        tok(TokenKind::Arrow, b"->", 21, 23),
        tok(TokenKind::UpperIdentifier, b"Nat", 24, 27),
    ];
    let (tree, errors) = run(&tokens);
    assert!(errors.is_empty());
    let pi = SyntaxExpr::Pi {
        span: sp(11, 27),
        binder: Binder::Explicit(sp(11, 20), "x".to_string(), Box::new(constructor("Nat", 16, 19))),
        codomain: Box::new(constructor("Nat", 24, 27)),
    };
    assert_eq!(
        tree.declarations,
        vec![SyntaxTreeDeclaration::Extern { span: sp(0, 27), name: "f".to_string(), type_ann: pi }]
    );
}

#[test]
fn parse_parenthesised_expression_is_not_a_binder() {
    // eval (x) -> Nat ;   : a plain arrow, since `(x)` has no colon
    let tokens = [
        tok(TokenKind::Eval, b"eval", 0, 4),
        tok(TokenKind::LParen, b"(", 5, 6),
        tok(TokenKind::LowerIdentifier, b"x", 6, 7),
        tok(TokenKind::RParen, b")", 7, 8),
        tok(TokenKind::Arrow, b"->", 9, 11),
        tok(TokenKind::UpperIdentifier, b"Nat", 12, 15),
        tok(TokenKind::Semicolon, b";", 15, 16),
    ];
    let (tree, errors) = run(&tokens);
    assert!(errors.is_empty());
    let arrow = SyntaxExpr::Arrow {
        span: sp(6, 15),
        param_type: Box::new(var("x", 6, 7)),
        return_type: Box::new(constructor("Nat", 12, 15)),
    };
    assert_eq!(tree.declarations, vec![SyntaxTreeDeclaration::Eval { span: sp(0, 16), expr: arrow }]);
}

#[test]
fn parse_unclosed_paren_at_end_of_input() {
    // eval ( 1
    let tokens = [
        tok(TokenKind::Eval, b"eval", 0, 4),
        tok(TokenKind::LParen, b"(", 5, 6),
        tok(TokenKind::Number, b"1", 6, 7),
    ];
    let (tree, errors) = run(&tokens);
    assert_eq!(tree.declarations, vec![SyntaxTreeDeclaration::Eval { span: sp(0, 7), expr: lit_nat(1, 6, 7) }]);
    assert_eq!(
        errors,
        vec![
            ParseError {
                kind: ParseErrorKind::UnexpectedEndOfInput,
                span: sp(7, 7),
                expected: vec![TokenKind::RParen],
                found: None,
            },
            ParseError {
                kind: ParseErrorKind::UnexpectedEndOfInput,
                span: sp(7, 7),
                expected: vec![TokenKind::Semicolon],
                found: None,
            },
        ]
    );
}

#[test]
fn parse_tuples_units_and_arrays() {
    // eval ((), [1, 2]) ;
    let tokens = [
        tok(TokenKind::Eval, b"eval", 0, 4),
        tok(TokenKind::LParen, b"(", 5, 6),
        tok(TokenKind::LParen, b"(", 6, 7),
        tok(TokenKind::RParen, b")", 7, 8),
        tok(TokenKind::Comma, b",", 8, 9),
        tok(TokenKind::LBracket, b"[", 10, 11),
        tok(TokenKind::Number, b"1", 11, 12),
        tok(TokenKind::Comma, b",", 12, 13),
        tok(TokenKind::Number, b"2", 14, 15),
        tok(TokenKind::RBracket, b"]", 15, 16),
        tok(TokenKind::RParen, b")", 16, 17),
        tok(TokenKind::Semicolon, b";", 17, 18),
    ];
    let (tree, errors) = run(&tokens);
    assert!(errors.is_empty());
    let array = SyntaxExpr::Array { elements: vec![lit_nat(1, 11, 12), lit_nat(2, 14, 15)], span: sp(10, 16) };
    let tuple = SyntaxExpr::Tuple { elements: vec![SyntaxExpr::Unit(sp(6, 8)), array], span: sp(5, 17) };
    assert_eq!(tree.declarations, vec![SyntaxTreeDeclaration::Eval { span: sp(0, 18), expr: tuple }]);
}

#[test]
fn parse_string_and_number_literals() {
    // eval "hi" 99999999999999999999 "
    let tokens = [
        tok(TokenKind::Eval, b"eval", 0, 4),
        tok(TokenKind::String, b"\"hi\"", 5, 9),
        tok(TokenKind::Number, b"99999999999999999999", 10, 30),
        tok(TokenKind::String, b"\"", 31, 32),
    ];
    let (tree, errors) = run(&tokens);
    let s = SyntaxExpr::Lit { value: Literal::Str("hi".to_string()), span: sp(5, 9) };
    // a number too large for 64 bits reads as zero
    let app1 = SyntaxExpr::App { span: sp(5, 30), fun: Box::new(s), arg: Box::new(lit_nat(0, 10, 30)) };
    // a string literal of one byte is kept whole
    let quote = SyntaxExpr::Lit { value: Literal::Str("\"".to_string()), span: sp(31, 32) };
    let app2 = SyntaxExpr::App { span: sp(5, 32), fun: Box::new(app1), arg: Box::new(quote) };
    assert_eq!(tree.declarations, vec![SyntaxTreeDeclaration::Eval { span: sp(0, 32), expr: app2 }]);
    assert_eq!(
        errors,
        vec![ParseError {
            kind: ParseErrorKind::UnexpectedEndOfInput,
            span: sp(32, 32),
            expected: vec![TokenKind::Semicolon],
            found: None,
        }]
    );
}

#[test]
fn parse_checked_refuses_a_string_whose_quotes_cannot_be_cut() {
    // a quote followed by one two-byte character: cutting one byte off each
    // end would split the character
    let lexeme = "\"\u{e9}".as_bytes();
    let tokens = [tok(TokenKind::Eval, b"eval", 0, 4), tok(TokenKind::String, lexeme, 5, 8)];
    assert!(parse_checked(&tokens, sp(0, 0)).is_none());
    // with multi-byte characters inside ASCII quotes all is well
    let lexeme = "\"\u{e9}\"".as_bytes();
    let tokens = [
        tok(TokenKind::Eval, b"eval", 0, 4),
        tok(TokenKind::String, lexeme, 5, 9),
        tok(TokenKind::Semicolon, b";", 9, 10),
    ];
    let (tree, errors) = run(&tokens);
    assert!(errors.is_empty());
    let s = SyntaxExpr::Lit { value: Literal::Str("\u{e9}".to_string()), span: sp(5, 9) };
    assert_eq!(tree.declarations, vec![SyntaxTreeDeclaration::Eval { span: sp(0, 10), expr: s }]);
}

#[test]
fn parse_pattern_matching_def() {
    // def f : Nat | Zero => 0 | Succ n => n
    let tokens = [
        tok(TokenKind::Def, b"def", 0, 3),
        tok(TokenKind::LowerIdentifier, b"f", 4, 5),
        tok(TokenKind::Colon, b":", 6, 7),
        tok(TokenKind::UpperIdentifier, b"Nat", 8, 11),
        tok(TokenKind::Pipe, b"|", 12, 13),
        tok(TokenKind::UpperIdentifier, b"Zero", 14, 18),
        tok(TokenKind::FatArrow, b"=>", 19, 21),
        tok(TokenKind::Number, b"0", 22, 23),
        tok(TokenKind::Pipe, b"|", 24, 25),
        tok(TokenKind::UpperIdentifier, b"Succ", 26, 30),
        tok(TokenKind::LowerIdentifier, b"n", 31, 32),
        tok(TokenKind::FatArrow, b"=>", 33, 35),
        tok(TokenKind::LowerIdentifier, b"n", 36, 37),
    ];
    let (tree, errors) = run(&tokens);
    assert!(errors.is_empty());
    let zero = SyntaxPattern::Constructor { namespace: vec![], name: "Zero".to_string(), args: vec![], span: sp(14, 18) };
    let succ = SyntaxPattern::Constructor {
        namespace: vec![],
        name: "Succ".to_string(),
        args: vec![SyntaxPattern::Var("n".to_string(), sp(31, 32))],
        span: sp(26, 32),
    };
    let arms = vec![
        PatternMatchArm { span: sp(14, 23), patterns: vec![zero], rhs: Box::new(lit_nat(0, 22, 23)) },
        PatternMatchArm { span: sp(26, 37), patterns: vec![succ], rhs: Box::new(var("n", 36, 37)) },
    ];
    assert_eq!(
        tree.declarations,
        vec![SyntaxTreeDeclaration::Def {
            span: sp(0, 37),
            name: "f".to_string(),
            binders: vec![],
            return_type: constructor("Nat", 8, 11),
            body: DefBody::PatternMatch { arms, span: sp(14, 37) },
        }]
    );
}

#[test]
fn parse_qualified_names() {
    // eval a::B::c ;
    let tokens = [
        tok(TokenKind::Eval, b"eval", 0, 4),
        tok(TokenKind::LowerIdentifier, b"a", 5, 6),
        tok(TokenKind::DoubleColon, b"::", 6, 8),
        tok(TokenKind::UpperIdentifier, b"B", 8, 9),
        tok(TokenKind::DoubleColon, b"::", 9, 11),
        tok(TokenKind::LowerIdentifier, b"c", 11, 12),
        tok(TokenKind::Semicolon, b";", 12, 13),
    ];
    let (tree, errors) = run(&tokens);
    assert!(errors.is_empty());
    let v = SyntaxExpr::Var { namespace: vec!["a".to_string(), "B".to_string()], member: "c".to_string(), span: sp(5, 12) };
    assert_eq!(tree.declarations, vec![SyntaxTreeDeclaration::Eval { span: sp(0, 13), expr: v }]);
}

#[test]
fn parse_lambda_without_binders_is_an_error() {
    // eval \ => x ;
    let tokens = [
        tok(TokenKind::Eval, b"eval", 0, 4),
        tok(TokenKind::Lambda, b"\\", 5, 6),
        tok(TokenKind::FatArrow, b"=>", 7, 9),
        tok(TokenKind::LowerIdentifier, b"x", 10, 11),
        tok(TokenKind::Semicolon, b";", 11, 12),
    ];
    let (tree, errors) = run(&tokens);
    let lam = SyntaxExpr::Lambda { span: sp(5, 11), binders: vec![], body: Box::new(var("x", 10, 11)) };
    assert_eq!(tree.declarations, vec![SyntaxTreeDeclaration::Eval { span: sp(0, 12), expr: lam }]);
    assert_eq!(
        errors,
        vec![ParseError {
            kind: ParseErrorKind::UnexpectedToken,
            span: sp(7, 9),
            expected: vec![TokenKind::LParen, TokenKind::LBrace, TokenKind::LBracket],
            found: Some(TokenKind::FatArrow),
        }]
    );
}

#[test]
fn parse_let_expression() {
    // eval let x : Nat = 1 in x ;
    let tokens = [
        tok(TokenKind::Eval, b"eval", 0, 4),
        tok(TokenKind::Let, b"let", 5, 8),
        tok(TokenKind::LowerIdentifier, b"x", 9, 10),
        tok(TokenKind::Colon, b":", 11, 12),
        tok(TokenKind::UpperIdentifier, b"Nat", 13, 16),
        tok(TokenKind::Equal, b"=", 17, 18),
        tok(TokenKind::Number, b"1", 19, 20),
        tok(TokenKind::In, b"in", 21, 23),
        tok(TokenKind::LowerIdentifier, b"x", 24, 25),
        tok(TokenKind::Semicolon, b";", 25, 26),
    ];
    let (tree, errors) = run(&tokens);
    assert!(errors.is_empty());
    let e = SyntaxExpr::Let {
        span: sp(5, 25),
        name: "x".to_string(),
        type_ann: Some(Box::new(constructor("Nat", 13, 16))),
        value: Box::new(lit_nat(1, 19, 20)),
        body: Box::new(var("x", 24, 25)),
    };
    assert_eq!(tree.declarations, vec![SyntaxTreeDeclaration::Eval { span: sp(0, 26), expr: e }]);
}

#[test]
fn parse_record_with_attribute_and_trailing_comma() {
    // @[derive Eq] record P { x : Nat, }
    let tokens = [
        tok(TokenKind::At, b"@", 0, 1),
        tok(TokenKind::LBracket, b"[", 1, 2),
        tok(TokenKind::LowerIdentifier, b"derive", 2, 8),
        tok(TokenKind::UpperIdentifier, b"Eq", 9, 11),
        tok(TokenKind::RBracket, b"]", 11, 12),
        tok(TokenKind::Record, b"record", 13, 19),
        tok(TokenKind::UpperIdentifier, b"P", 20, 21),
        tok(TokenKind::LBrace, b"{", 22, 23),
        tok(TokenKind::LowerIdentifier, b"x", 24, 25),
        tok(TokenKind::Colon, b":", 26, 27),
        tok(TokenKind::UpperIdentifier, b"Nat", 28, 31),
        tok(TokenKind::Comma, b",", 31, 32),
        tok(TokenKind::RBrace, b"}", 33, 34),
    ];
    let (tree, errors) = run(&tokens);
    assert!(errors.is_empty());
    assert_eq!(tree.declarations.len(), 1);
    match &tree.declarations[0] {
        SyntaxTreeDeclaration::Record { span, attributes, name, binders, fields } => {
            assert_eq!(*span, sp(13, 34));
            assert_eq!(attributes.len(), 1);
            assert_eq!(attributes[0].span, sp(0, 12));
            assert_eq!(attributes[0].name, "derive");
            assert_eq!(attributes[0].args, vec![constructor("Eq", 9, 11)]);
            assert_eq!(name, "P");
            assert!(binders.is_empty());
            assert_eq!(
                *fields,
                vec![RecordField {
                    span: sp(24, 31),
                    attributes: vec![],
                    name: "x".to_string(),
                    type_ann: Box::new(constructor("Nat", 28, 31)),
                }]
            );
        }
        other => panic!("expected a record, got {:?}", other),
    }
}

#[test]
fn parse_attribute_without_declaration_is_an_error() {
    // @[inline] ;
    let tokens = [
        tok(TokenKind::At, b"@", 0, 1),
        tok(TokenKind::LBracket, b"[", 1, 2),
        tok(TokenKind::LowerIdentifier, b"inline", 2, 8),
        tok(TokenKind::RBracket, b"]", 8, 9),
        tok(TokenKind::Semicolon, b";", 10, 11),
    ];
    let (tree, errors) = run(&tokens);
    assert!(tree.declarations.is_empty());
    assert_eq!(
        errors,
        vec![
            ParseError {
                kind: ParseErrorKind::UnexpectedToken,
                span: sp(0, 9),
                expected: vec![],
                found: Some(TokenKind::Semicolon),
            },
            ParseError {
                kind: ParseErrorKind::UnexpectedToken,
                span: sp(10, 11),
                expected: vec![],
                found: Some(TokenKind::Semicolon),
            },
        ]
    );
}

#[test]
fn parse_end_of_file_token_stops_the_parser() {
    // eval 1 ; <eof> def
    let tokens = [
        tok(TokenKind::Eval, b"eval", 0, 4),
        tok(TokenKind::Number, b"1", 5, 6),
        tok(TokenKind::Semicolon, b";", 6, 7),
        tok(TokenKind::EndOfFile, b"", 7, 7),
        tok(TokenKind::Def, b"def", 8, 11),
    ];
    let (tree, errors) = run(&tokens);
    assert!(errors.is_empty());
    assert_eq!(tree.declarations, vec![SyntaxTreeDeclaration::Eval { span: sp(0, 7), expr: lit_nat(1, 5, 6) }]);
}

#[test]
fn parsed_trees_clone_equal() {
    // def f (x : Nat) : Nat | Zero => (1, [x]) | _ => let y = x in y
    let tokens = [
        tok(TokenKind::Def, b"def", 0, 3),
        tok(TokenKind::LowerIdentifier, b"f", 4, 5),
        tok(TokenKind::LParen, b"(", 6, 7),
        tok(TokenKind::LowerIdentifier, b"x", 7, 8),
        tok(TokenKind::Colon, b":", 9, 10),
        tok(TokenKind::UpperIdentifier, b"Nat", 11, 14),
        tok(TokenKind::RParen, b")", 14, 15),
        tok(TokenKind::Colon, b":", 16, 17),
        tok(TokenKind::UpperIdentifier, b"Nat", 18, 21),
        tok(TokenKind::Pipe, b"|", 22, 23),
        tok(TokenKind::UpperIdentifier, b"Zero", 24, 28),
        tok(TokenKind::FatArrow, b"=>", 29, 31),
        tok(TokenKind::LParen, b"(", 32, 33),
        tok(TokenKind::Number, b"1", 33, 34),
        tok(TokenKind::Comma, b",", 34, 35),
        tok(TokenKind::LBracket, b"[", 36, 37),
        tok(TokenKind::LowerIdentifier, b"x", 37, 38),
        tok(TokenKind::RBracket, b"]", 38, 39),
        tok(TokenKind::RParen, b")", 39, 40),
        tok(TokenKind::Pipe, b"|", 41, 42),
        tok(TokenKind::Underscore, b"_", 43, 44),
        tok(TokenKind::FatArrow, b"=>", 45, 47),
        tok(TokenKind::Let, b"let", 48, 51),
        tok(TokenKind::LowerIdentifier, b"y", 52, 53),
        tok(TokenKind::Equal, b"=", 54, 55),
        tok(TokenKind::LowerIdentifier, b"x", 56, 57),
        tok(TokenKind::In, b"in", 58, 60),
        tok(TokenKind::LowerIdentifier, b"y", 61, 62),
    ];
    let (tree, errors) = run(&tokens);
    assert!(errors.is_empty());
    assert_eq!(tree.declarations.len(), 1);
    match &tree.declarations[0] {
        SyntaxTreeDeclaration::Def { binders, body: DefBody::PatternMatch { arms, span }, .. } => {
            assert_eq!(
                *binders,
                vec![Binder::Explicit(sp(6, 15), "x".to_string(), Box::new(constructor("Nat", 11, 14)))]
            );
            assert_eq!(arms.len(), 2);
            assert_eq!(*span, sp(24, 62));
            assert_eq!(arms[1].patterns, vec![SyntaxPattern::Wildcard(sp(43, 44))]);
        }
        other => panic!("expected a pattern-matching def, got {:?}", other),
    }
    let copy = tree.clone();
    assert_eq!(copy, tree);
    let decl_copy = tree.declarations[0].clone();
    assert_eq!(decl_copy, tree.declarations[0]);
}
