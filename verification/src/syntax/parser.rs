//! The parser: a recursive-descent parser with error recovery. It never gives
//! up: where a token is missing it records an error and carries on as if the
//! token had been there, and where a token starts nothing it records an error
//! and skips the token.

use vstd::prelude::*;
use crate::spine::{Literal, LiteralV};
use crate::syntax::Span;
use crate::syntax::text::{char_len_utf8, is_digit_char, utf8_width};
use vstd::string::{StrSliceExecFns, StringExecFns};
use crate::syntax::error::{ParseError, ParseErrorKind, ParseErrorV};
use crate::syntax::token::{Token, TokenKind, TokenV};
use crate::syntax::tree::{
    binder_v, binders_v, expr_v, exprs_v, lemma_binders_v_push, lemma_exprs_v_push,
    lemma_patterns_v_push, lemma_patterns_v_len, lemma_patterns_v_index, arm_v, attribute_v, attributes_v,
    constructor_v, decl_v, def_body_v, field_v, fields_v, member_v, opt_expr_v, lemma_exprs_v_len, lemma_binders_v_len, pattern_v, patterns_v, strings_v, pattern_span, expr_span, binder_span,
    ArmV, AttributeV, Binder, BinderV, ConstructorV, DeclV, DefBody, DefBodyV, ExprV, FieldV,
    InductiveConstructor, InfixOp, InstanceMember, MemberV, PatternMatchArm, PatternV, RecordField,
    SyntaxAttribute, SyntaxExpr, SyntaxPattern, SyntaxTree, SyntaxTreeDeclaration, TreeV,
};

verus! {

// ---------------------------------------------------------------------------
// The parser state as a value.

/// Where the parser stands, the errors it has recorded, and whether it has met
/// a string literal whose quotes cannot be cut off at character boundaries.
pub struct PState {
    pub pos: int,
    pub errs: Seq<ParseErrorV>,
    pub fault: bool,
}

/// Errors as values.
pub open spec fn errs_v(s: Seq<ParseError>) -> Seq<ParseErrorV> {
    s.map_values(|e: ParseError| e@)
}

/// An optional token as a value.
pub open spec fn opt_tok_v<'a>(t: Option<Token<'a>>) -> Option<TokenV> {
    match t {
        Some(t) => Some(t@),
        None => None,
    }
}

/// Tokens as values.
pub open spec fn toks_v<'a>(s: Seq<Token<'a>>) -> Seq<TokenV> {
    s.map_values(|t: Token<'a>| t@)
}

/// The kind of the token at `pos`, or `EndOfFile` past the end.
pub open spec fn peek_kind(ts: Seq<TokenV>, pos: int) -> TokenKind {
    if 0 <= pos < ts.len() {
        ts[pos].kind
    } else {
        TokenKind::EndOfFile
    }
}

/// The parser stands at a token of kind `k` (the end of input counts as `EndOfFile`).
pub open spec fn at(ts: Seq<TokenV>, s: PState, k: TokenKind) -> bool {
    peek_kind(ts, s.pos) == k
}

/// Where the last token ends (0 where there is none).
pub open spec fn last_end(ts: Seq<TokenV>) -> usize {
    if ts.len() > 0 {
        ts[ts.len() - 1].span.end
    } else {
        0
    }
}

/// The span of the token at `pos`, or the empty span at the end of the last
/// token past the end.
pub open spec fn span_at(ts: Seq<TokenV>, file: usize, pos: int) -> Span {
    if 0 <= pos < ts.len() {
        ts[pos].span
    } else {
        Span { file, start: last_end(ts), end: last_end(ts) }
    }
}

/// The span from the start of `a` to the end of `b`, in the file of `a`.
pub open spec fn join(a: Span, b: Span) -> Span {
    Span { file: a.file, start: a.start, end: b.end }
}

/// The state one token further on.
pub open spec fn advance(s: PState) -> PState {
    PState { pos: s.pos + 1, ..s }
}

/// The state with one more error recorded.
pub open spec fn push_err(s: PState, e: ParseErrorV) -> PState {
    PState { errs: s.errs.push(e), ..s }
}

/// The error "unexpected token" at the current token, which names what was
/// found there (`EndOfFile` past the end).
pub open spec fn unexpected_here(ts: Seq<TokenV>, file: usize, s: PState, expected: Seq<TokenKind>) -> ParseErrorV {
    ParseErrorV {
        kind: ParseErrorKind::UnexpectedToken,
        span: span_at(ts, file, s.pos),
        expected,
        found: Some(peek_kind(ts, s.pos)),
    }
}

/// An error lacks the kind of token found exactly where it reports the end
/// of the input.
pub open spec fn error_consistent(e: ParseErrorV) -> bool {
    (e.found is None) <==> e.kind == ParseErrorKind::UnexpectedEndOfInput
}

/// Every error of `errs` is consistent.
#[verifier::opaque]
pub open spec fn errors_consistent(errs: Seq<ParseErrorV>) -> bool {
    forall|i: int| 0 <= i < errs.len() ==> error_consistent(#[trigger] errs[i])
}

/// The error of a missing token: "unexpected token" where there is one,
/// "unexpected end of input" past the end.
pub open spec fn missing_here(ts: Seq<TokenV>, file: usize, s: PState, expected: Seq<TokenKind>) -> ParseErrorV {
    ParseErrorV {
        kind: if 0 <= s.pos < ts.len() {
            ParseErrorKind::UnexpectedToken
        } else {
            ParseErrorKind::UnexpectedEndOfInput
        },
        span: span_at(ts, file, s.pos),
        expected,
        found: if 0 <= s.pos < ts.len() {
            Some(ts[s.pos].kind)
        } else {
            None
        },
    }
}

/// Takes a token of kind `k` if one is next.
pub open spec fn spec_eat(ts: Seq<TokenV>, s: PState, k: TokenKind) -> (Option<TokenV>, PState) {
    if at(ts, s, k) {
        (Some(ts[s.pos]), advance(s))
    } else {
        (None, s)
    }
}

/// Takes a token of kind `k`; where there is none, records the error and
/// stands in an empty token of that kind at the current span.
pub open spec fn spec_expect(ts: Seq<TokenV>, file: usize, s: PState, k: TokenKind) -> (TokenV, PState) {
    if at(ts, s, k) {
        (ts[s.pos], advance(s))
    } else {
        (
            TokenV { kind: k, lexeme: seq![], span: span_at(ts, file, s.pos) },
            push_err(s, missing_here(ts, file, s, seq![k])),
        )
    }
}

/// The text of a token: its bytes read as UTF-8, with each malformed
/// sequence replaced by U+FFFD (what `String::from_utf8_lossy` computes).
pub uninterp spec fn utf8_lossy(bytes: Seq<u8>) -> Seq<char>;

/// The text of a token's bytes: the characters they encode, where they are
/// well-formed UTF-8; else what `utf8_lossy` gives.
pub open spec fn token_text(bytes: Seq<u8>) -> Seq<char> {
    if vstd::utf8::valid_utf8(bytes) {
        vstd::utf8::decode_utf8(bytes)
    } else {
        utf8_lossy(bytes)
    }
}

/// `String::from_utf8_lossy`, made owned. Its result is the name
/// `utf8_lossy` of the bytes; of the replacement of malformed sequences only
/// this is stated: bytes that are well-formed UTF-8 read as what they encode.
#[verifier::external_body]
fn lexeme_to_string(lexeme: &[u8]) -> (s: String)
    ensures
        s@ == utf8_lossy(lexeme@),
        vstd::utf8::valid_utf8(lexeme@) ==> s@ == vstd::utf8::decode_utf8(lexeme@),
{
    String::from_utf8_lossy(lexeme).into_owned()
}

// ---------------------------------------------------------------------------
// The parser.

struct Parser<'a> {
    tokens: &'a [Token<'a>],
    pos: usize,
    file: usize,
    errors: Vec<ParseError>,
    string_slice_fault: bool,
}

impl<'a> Parser<'a> {
    spec fn toks(&self) -> Seq<TokenV> {
        toks_v(self.tokens@)
    }

    spec fn state(&self) -> PState {
        PState { pos: self.pos as int, errs: errs_v(self.errors@), fault: self.string_slice_fault }
    }

    spec fn wf(&self) -> bool {
        &&& self.pos <= self.tokens@.len()
        &&& self.tokens@.len() <= i32::MAX
        &&& errors_consistent(errs_v(self.errors@))
    }

    fn new(tokens: &'a [Token<'a>], file: usize) -> (p: Self)
        requires
            tokens@.len() <= i32::MAX,
        ensures
            p.tokens == tokens,
            p.file == file,
            p.wf(),
            p.state() == (PState { pos: 0, errs: seq![], fault: false }),
    {
        let p = Self { tokens, pos: 0, file, errors: Vec::new(), string_slice_fault: false };
        assert(errs_v(p.errors@) =~= seq![]);
        proof {
            reveal(errors_consistent);
        }
        p
    }

    fn peek(&self) -> (k: TokenKind)
        ensures
            k == peek_kind(self.toks(), self.pos as int),
    {
        if self.pos < self.tokens.len() {
            self.tokens[self.pos].kind
        } else {
            TokenKind::EndOfFile
        }
    }

    fn current(&self) -> (t: Option<&Token<'a>>)
        ensures
            t is Some <==> self.pos < self.tokens@.len(),
            t matches Some(t) ==> *t == self.tokens@[self.pos as int],
    {
        if self.pos < self.tokens.len() {
            Some(&self.tokens[self.pos])
        } else {
            None
        }
    }

    fn current_span(&self) -> (s: Span)
        ensures
            s == span_at(self.toks(), self.file, self.pos as int),
    {
        if let Some(t) = self.current() {
            t.span
        } else {
            let end = match self.tokens.last() {
                Some(t) => t.span.end,
                None => 0,
            };
            Span::empty(self.file, end)
        }
    }

    fn at(&self, kind: TokenKind) -> (b: bool)
        ensures
            b == (peek_kind(self.toks(), self.pos as int) == kind),
    {
        self.peek() == kind
    }

    fn eat(&mut self, kind: TokenKind) -> (t: Option<Token<'a>>)
        requires
            old(self).wf(),
            kind != TokenKind::EndOfFile || old(self).pos < old(self).tokens@.len(),
        ensures
            steps(*old(self), *final(self)),
            (opt_tok_v(t), final(self).state()) == spec_eat(old(self).toks(), old(self).state(), kind),
    {
        if self.at(kind) {
            let tok = self.tokens[self.pos];
            self.pos += 1;
            Some(tok)
        } else {
            None
        }
    }

    fn expect(&mut self, kind: TokenKind) -> (t: Token<'a>)
        requires
            old(self).wf(),
            kind != TokenKind::EndOfFile || old(self).pos < old(self).tokens@.len(),
        ensures
            steps(*old(self), *final(self)),
            (t@, final(self).state()) == spec_expect(old(self).toks(), old(self).file, old(self).state(), kind),
    {
        if let Some(tok) = self.eat(kind) {
            tok
        } else {
            let span = self.current_span();
            let found = if self.pos < self.tokens.len() {
                Some(self.tokens[self.pos].kind)
            } else {
                None
            };
            let err = ParseError {
                kind: if found.is_some() {
                    ParseErrorKind::UnexpectedToken
                } else {
                    ParseErrorKind::UnexpectedEndOfInput
                },
                span,
                expected: vec![kind],
                found,
            };
            assert(err.expected@ =~= seq![kind]);
            self.push_error(err);
            let t = Token { kind, lexeme: &[], span };
            assert(t.lexeme@ =~= seq![]);
            t
        }
    }

    fn bump(&mut self) -> (t: Token<'a>)
        requires
            old(self).wf(),
            old(self).pos < old(self).tokens@.len(),
        ensures
            steps(*old(self), *final(self)),
            t@ == old(self).toks()[old(self).pos as int],
            final(self).state() == advance(old(self).state()),
    {
        let tok = self.tokens[self.pos];
        self.pos += 1;
        tok
    }

    fn push_error(&mut self, e: ParseError)
        requires
            old(self).wf(),
            error_consistent(e@),
        ensures
            steps(*old(self), *final(self)),
            final(self).pos == old(self).pos,
            final(self).state() == push_err(old(self).state(), e@),
    {
        let ghost before = self.errors@;
        self.errors.push(e);
        assert(errs_v(self.errors@) =~= errs_v(before).push(e@));
        proof {
            reveal(errors_consistent);
        }
    }
}

/// The parser moved on from `a` to `b` over the same tokens and file.
spec fn steps<'a>(a: Parser<'a>, b: Parser<'a>) -> bool {
    &&& b.tokens == a.tokens
    &&& b.file == a.file
    &&& a.pos <= b.pos <= b.tokens@.len()
    &&& b.wf()
}

} // verus!

verus! {

// ---------------------------------------------------------------------------
// Qualified names `a::B::c`.

struct QualifiedName {
    namespace: Vec<String>,
    name: String,
    is_upper: bool,
    span: Span,
}

/// A qualified name as read: the namespace parts, the last part, whether
/// that is an upper-case identifier, and the span of the whole.
pub struct QNameV {
    pub namespace: Seq<Seq<char>>,
    pub name: Seq<char>,
    pub is_upper: bool,
    pub span: Span,
}

pub type NamePart = (Seq<char>, bool, Span);

/// The text of a name token, whether it is an upper-case identifier, and its span.
pub open spec fn name_part(t: TokenV) -> NamePart {
    (token_text(t.lexeme), t.kind == TokenKind::UpperIdentifier, t.span)
}

/// The parts `::x` that follow a first name part.
pub open spec fn spec_qn_rest(ts: Seq<TokenV>, s: PState, parts: Seq<NamePart>) -> (Seq<NamePart>, PState)
    decreases ts.len() - s.pos,
{
    if at(ts, s, TokenKind::DoubleColon) {
        let s1 = advance(s);
        if at(ts, s1, TokenKind::LowerIdentifier) || at(ts, s1, TokenKind::UpperIdentifier) {
            spec_qn_rest(ts, advance(s1), parts.push(name_part(ts[s1.pos])))
        } else {
            (parts, s1)
        }
    } else {
        (parts, s)
    }
}

/// A qualified name, from its first token on.
pub open spec fn spec_qualified_name(ts: Seq<TokenV>, s: PState) -> (QNameV, PState) {
    let first = ts[s.pos];
    let (parts, s1) = spec_qn_rest(ts, advance(s), seq![name_part(first)]);
    let last = parts[parts.len() - 1];
    let span = join(first.span, last.2);
    if parts.len() == 1 {
        (
            QNameV {
                namespace: seq![],
                name: parts[0].0,
                is_upper: first.kind == TokenKind::UpperIdentifier,
                span,
            },
            s1,
        )
    } else {
        (
            QNameV {
                namespace: parts.subrange(0, parts.len() - 1).map_values(|q: NamePart| q.0),
                name: last.0,
                is_upper: last.1,
                span,
            },
            s1,
        )
    }
}

spec fn parts_v(v: Seq<(String, bool, Span)>) -> Seq<NamePart> {
    v.map_values(|x: (String, bool, Span)| (x.0@, x.1, x.2))
}

fn parse_qualified_name(p: &mut Parser) -> (q: QualifiedName)
    requires
        old(p).wf(),
        old(p).pos < old(p).tokens@.len(),
    ensures
        steps(*old(p), *final(p)),
        old(p).pos < final(p).pos,
        ((QNameV { namespace: strings_v(q.namespace@), name: q.name@, is_upper: q.is_upper, span: q.span }),
            final(p).state()) == spec_qualified_name(old(p).toks(), old(p).state()),
{
    let ghost ts = p.toks();
    let first = p.bump();
    let mut parts: Vec<(String, bool, Span)> = Vec::new();
    parts.push((lexeme_to_string(first.lexeme), first.kind == TokenKind::UpperIdentifier, first.span));
    let ghost target = spec_qn_rest(ts, p.state(), seq![name_part(first@)]);
    assert(parts_v(parts@) =~= seq![name_part(first@)]);
    while p.at(TokenKind::DoubleColon)
        invariant_except_break
            spec_qn_rest(ts, p.state(), parts_v(parts@)) == target,
        invariant
            p.wf(),
            p.toks() == ts,
            steps(*old(p), *p),
            old(p).pos < p.pos,
            parts@.len() >= 1,
        ensures
            parts_v(parts@) == target.0,
            p.state() == target.1,
        decreases p.tokens@.len() - p.pos,
    {
        p.bump();
        if p.at(TokenKind::LowerIdentifier) || p.at(TokenKind::UpperIdentifier) {
            let tok = p.bump();
            let ghost before = parts@;
            parts.push((lexeme_to_string(tok.lexeme), tok.kind == TokenKind::UpperIdentifier, tok.span));
            assert(parts_v(parts@) =~= parts_v(before).push(name_part(tok@)));
        } else {
            break;
        }
    }
    let n = parts.len();
    let last_is_upper = parts[n - 1].1;
    let last_end = parts[n - 1].2.end;
    let span = Span::new(first.span.file, first.span.start, last_end);
    if n == 1 {
        let ghost pv = parts_v(parts@);
        let (name, _, _) = parts.remove(0);
        let namespace: Vec<String> = Vec::new();
        assert(strings_v(namespace@) =~= seq![]);
        QualifiedName { namespace, name, is_upper: first.kind == TokenKind::UpperIdentifier, span }
    } else {
        let ghost pv = parts_v(parts@);
        let mut namespace: Vec<String> = Vec::new();
        let mut i: usize = 0;
        while i < n - 1
            invariant
                n == parts@.len(),
                n >= 2,
                i <= n - 1,
                pv == parts_v(parts@),
                strings_v(namespace@) =~= pv.subrange(0, i as int).map_values(|q: NamePart| q.0),
            decreases n - 1 - i,
        {
            let ghost before = namespace@;
            namespace.push(parts[i].0.clone());
            assert(strings_v(namespace@) =~= strings_v(before).push(parts@[i as int].0@));
            assert(pv.subrange(0, i + 1).map_values(|q: NamePart| q.0) =~= pv.subrange(0, i as int).map_values(|q: NamePart| q.0).push(pv[i as int].0));
            i += 1;
        }
        let (name, _, _) = parts.pop().unwrap();
        QualifiedName { namespace, name, is_upper: last_is_upper, span }
    }
}

} // verus!

verus! {

// ---------------------------------------------------------------------------
// Patterns.

/// A token kind that can start a pattern argument.
pub open spec fn pattern_atom_start(k: TokenKind) -> bool {
    k == TokenKind::Underscore || k == TokenKind::LParen || k == TokenKind::UpperIdentifier || k
        == TokenKind::LowerIdentifier
}

fn is_pattern_atom_start(kind: TokenKind) -> (b: bool)
    ensures
        b == pattern_atom_start(kind),
{
    kind == TokenKind::Underscore || kind == TokenKind::LParen || kind == TokenKind::UpperIdentifier
        || kind == TokenKind::LowerIdentifier
}

/// The patterns `, p` that follow a first one.
pub open spec fn spec_pattern_more(ts: Seq<TokenV>, f: usize, s: PState, acc: Seq<PatternV>) -> (Seq<PatternV>, PState)
    decreases ts.len() - s.pos, 1nat,
{
    if at(ts, s, TokenKind::Comma) {
        let (x, s1) = spec_parse_pattern(ts, f, advance(s));
        if s.pos < s1.pos <= ts.len() {
            spec_pattern_more(ts, f, s1, acc.push(x))
        } else {
            (acc.push(x), s1)
        }
    } else {
        (acc, s)
    }
}

/// `( )`, `(p)` (which is `p`) or a tuple `(p1, p2, ..)`, from the `(` on.
pub open spec fn spec_pattern_group(ts: Seq<TokenV>, f: usize, s: PState) -> (PatternV, PState)
    decreases ts.len() - s.pos, 2nat,
{
    let lp = ts[s.pos];
    let s1 = advance(s);
    let (pats, s2) = if at(ts, s1, TokenKind::RParen) || s.pos >= ts.len() {
        (Seq::<PatternV>::empty(), s1)
    } else {
        let (x, s1a) = spec_parse_pattern(ts, f, s1);
        if s.pos <= s1a.pos <= ts.len() {
            spec_pattern_more(ts, f, s1a, seq![x])
        } else {
            (seq![x], s1a)
        }
    };
    let (rp, s3) = spec_expect(ts, f, s2, TokenKind::RParen);
    if pats.len() == 1 {
        (pats[0], s3)
    } else {
        (PatternV::Tuple { elements: pats, span: join(lp.span, rp.span) }, s3)
    }
}

/// The arguments of a constructor pattern.
pub open spec fn spec_pattern_args(ts: Seq<TokenV>, f: usize, s: PState, acc: Seq<PatternV>) -> (Seq<PatternV>, PState)
    decreases ts.len() - s.pos, 4nat,
{
    if pattern_atom_start(peek_kind(ts, s.pos)) {
        let (a, s1) = spec_parse_pattern_atom(ts, f, s);
        if s.pos < s1.pos <= ts.len() {
            spec_pattern_args(ts, f, s1, acc.push(a))
        } else {
            (acc.push(a), s1)
        }
    } else {
        (acc, s)
    }
}

/// A token that starts no pattern: the error, and a wildcard in its place.
pub open spec fn spec_pattern_error(ts: Seq<TokenV>, f: usize, s: PState) -> (PatternV, PState) {
    (PatternV::Wildcard(span_at(ts, f, s.pos)), push_err(s, unexpected_here(ts, f, s, seq![])))
}

/// What parsing a pattern at `s` gives.
pub open spec fn spec_parse_pattern(ts: Seq<TokenV>, f: usize, s: PState) -> (PatternV, PState)
    decreases ts.len() - s.pos, 3nat,
{
    let k = peek_kind(ts, s.pos);
    if k == TokenKind::Underscore {
        (PatternV::Wildcard(ts[s.pos].span), advance(s))
    } else if k == TokenKind::LParen {
        spec_pattern_group(ts, f, s)
    } else if k == TokenKind::UpperIdentifier || k == TokenKind::LowerIdentifier {
        let (qn, s1) = spec_qualified_name(ts, s);
        if qn.is_upper || qn.namespace.len() != 0 {
            if s.pos < s1.pos <= ts.len() {
                let (args, s2) = spec_pattern_args(ts, f, s1, seq![]);
                let span = if args.len() == 0 {
                    qn.span
                } else {
                    join(qn.span, pattern_span(args[args.len() - 1]))
                };
                (PatternV::Constructor { namespace: qn.namespace, name: qn.name, args, span }, s2)
            } else {
                (PatternV::Wildcard(qn.span), s1)
            }
        } else {
            (PatternV::Var(qn.name, qn.span), s1)
        }
    } else {
        spec_pattern_error(ts, f, s)
    }
}

/// A pattern that a constructor pattern takes as an argument: as a pattern,
/// but a constructor here takes no arguments.
pub open spec fn spec_parse_pattern_atom(ts: Seq<TokenV>, f: usize, s: PState) -> (PatternV, PState)
    decreases ts.len() - s.pos, 3nat,
{
    let k = peek_kind(ts, s.pos);
    if k == TokenKind::Underscore {
        (PatternV::Wildcard(ts[s.pos].span), advance(s))
    } else if k == TokenKind::LParen {
        spec_pattern_group(ts, f, s)
    } else if k == TokenKind::UpperIdentifier || k == TokenKind::LowerIdentifier {
        let (qn, s1) = spec_qualified_name(ts, s);
        if qn.is_upper || qn.namespace.len() != 0 {
            (PatternV::Constructor { namespace: qn.namespace, name: qn.name, args: seq![], span: qn.span }, s1)
        } else {
            (PatternV::Var(qn.name, qn.span), s1)
        }
    } else {
        spec_pattern_error(ts, f, s)
    }
}

fn pattern_error(p: &mut Parser) -> (r: SyntaxPattern)
    requires
        old(p).wf(),
    ensures
        steps(*old(p), *final(p)),
        (r@, final(p).state()) == spec_pattern_error(old(p).toks(), old(p).file, old(p).state()),
{
    let span = p.current_span();
    let found = p.peek();
    let err = ParseError { kind: ParseErrorKind::UnexpectedToken, span, expected: Vec::new(), found: Some(found) };
    assert(err.expected@ =~= seq![]);
    p.push_error(err);
    SyntaxPattern::Wildcard(span)
}

fn parse_pattern_group(p: &mut Parser) -> (r: SyntaxPattern)
    requires
        old(p).wf(),
        peek_kind(old(p).toks(), old(p).pos as int) == TokenKind::LParen,
    ensures
        steps(*old(p), *final(p)),
        old(p).pos < final(p).pos,
        (r@, final(p).state()) == spec_pattern_group(old(p).toks(), old(p).file, old(p).state()),
    decreases old(p).tokens@.len() - old(p).pos, 2nat,
{
    let ghost ts = p.toks();
    let ghost f = p.file;
    let lparen = p.bump();
    let mut pats: Vec<SyntaxPattern> = Vec::new();
    if !p.at(TokenKind::RParen) {
        let x = parse_pattern(p);
        let ghost target = spec_pattern_more(ts, f, p.state(), seq![x@]);
        pats.push(x);
        assert(patterns_v(pats@) =~= seq![x@]) by {
            lemma_patterns_v_push(seq![], x);
            assert(seq![x] =~= Seq::<SyntaxPattern>::empty().push(x));
        }
        while p.at(TokenKind::Comma)
            invariant
                p.wf(),
                p.toks() == ts,
                p.file == f,
                steps(*old(p), *p),
                old(p).pos < p.pos,
                spec_pattern_more(ts, f, p.state(), patterns_v(pats@)) == target,
            decreases p.tokens@.len() - p.pos,
        {
            p.bump();
            let y = parse_pattern(p);
            proof {
                lemma_patterns_v_push(pats@, y);
            }
            pats.push(y);
        }
    } else {
        assert(patterns_v(pats@) =~= seq![]);
    }
    let rparen = p.expect(TokenKind::RParen);
    proof {
        lemma_patterns_v_len(pats@);
    }
    if pats.len() == 1 {
        let ghost pv = patterns_v(pats@);
        assert(pats@.subrange(0, 0) =~= Seq::<SyntaxPattern>::empty());
        assert(pv == patterns_v(pats@.subrange(0, 0)).push(pattern_v(pats@[0])));
        let x = pats.remove(0);
        x
    } else {
        SyntaxPattern::Tuple {
            elements: pats,
            span: Span::new(lparen.span.file, lparen.span.start, rparen.span.end),
        }
    }
}

fn parse_pattern(p: &mut Parser) -> (r: SyntaxPattern)
    requires
        old(p).wf(),
    ensures
        steps(*old(p), *final(p)),
        (r@, final(p).state()) == spec_parse_pattern(old(p).toks(), old(p).file, old(p).state()),
    decreases old(p).tokens@.len() - old(p).pos, 3nat,
{
    let ghost ts = p.toks();
    let ghost f = p.file;
    match p.peek() {
        TokenKind::Underscore => {
            let tok = p.bump();
            SyntaxPattern::Wildcard(tok.span)
        },
        TokenKind::LParen => parse_pattern_group(p),
        TokenKind::UpperIdentifier | TokenKind::LowerIdentifier => {
            let qn = parse_qualified_name(p);
            if qn.is_upper || qn.namespace.len() != 0 {
                let mut args: Vec<SyntaxPattern> = Vec::new();
                let ghost target = spec_pattern_args(ts, f, p.state(), seq![]);
                assert(patterns_v(args@) =~= seq![]);
                while is_pattern_atom_start(p.peek())
                    invariant
                        p.wf(),
                        p.toks() == ts,
                        p.file == f,
                        steps(*old(p), *p),
                        old(p).pos < p.pos,
                        spec_pattern_args(ts, f, p.state(), patterns_v(args@)) == target,
                    decreases p.tokens@.len() - p.pos,
                {
                    let a = parse_pattern_atom(p);
                    proof {
                        lemma_patterns_v_push(args@, a);
                    }
                    args.push(a);
                }
                proof {
                    lemma_patterns_v_len(args@);
                }
                let span = if args.len() == 0 {
                    qn.span
                } else {
                    let last_end = args[args.len() - 1].span().end;
                    Span::new(qn.span.file, qn.span.start, last_end)
                };
                proof {
                    if args@.len() > 0 {
                        assert(patterns_v(args@) == patterns_v(args@.subrange(0, args@.len() - 1)).push(
                            pattern_v(args@[args@.len() - 1])));
                    }
                }
                SyntaxPattern::Constructor { namespace: qn.namespace, name: qn.name, args, span }
            } else {
                SyntaxPattern::Var(qn.name, qn.span)
            }
        },
        _ => pattern_error(p),
    }
}

fn parse_pattern_atom(p: &mut Parser) -> (r: SyntaxPattern)
    requires
        old(p).wf(),
    ensures
        steps(*old(p), *final(p)),
        pattern_atom_start(peek_kind(old(p).toks(), old(p).pos as int)) ==> old(p).pos < final(p).pos,
        (r@, final(p).state()) == spec_parse_pattern_atom(old(p).toks(), old(p).file, old(p).state()),
    decreases old(p).tokens@.len() - old(p).pos, 3nat,
{
    match p.peek() {
        TokenKind::Underscore => {
            let tok = p.bump();
            SyntaxPattern::Wildcard(tok.span)
        },
        TokenKind::LParen => parse_pattern_group(p),
        TokenKind::UpperIdentifier | TokenKind::LowerIdentifier => {
            let qn = parse_qualified_name(p);
            if qn.is_upper || qn.namespace.len() != 0 {
                let args: Vec<SyntaxPattern> = Vec::new();
                assert(patterns_v(args@) =~= seq![]);
                SyntaxPattern::Constructor { namespace: qn.namespace, name: qn.name, args, span: qn.span }
            } else {
                SyntaxPattern::Var(qn.name, qn.span)
            }
        },
        _ => pattern_error(p),
    }
}

} // verus!

verus! {

// ---------------------------------------------------------------------------
// Numbers and string literals.

/// The value of a sequence of decimal digits.
pub open spec fn digits_value(cs: Seq<char>) -> int
    decreases cs.len(),
{
    if cs.len() == 0 {
        0
    } else {
        digits_value(cs.subrange(0, cs.len() - 1)) * 10 + ((cs[cs.len() - 1] as u32) - 48)
    }
}

/// The digits of a number: what follows an optional leading `+`.
pub open spec fn unsigned_digits(cs: Seq<char>) -> Seq<char> {
    if cs.len() > 0 && cs[0] == '+' {
        cs.subrange(1, cs.len() as int)
    } else {
        cs
    }
}

/// Every character is an ASCII digit.
pub open spec fn all_digits(ds: Seq<char>) -> bool {
    forall|i: int| 0 <= i < ds.len() ==> is_digit_char(#[trigger] ds[i])
}

/// What `str::parse::<u64>` gives: an optional `+` followed by at least one
/// decimal digit, with a value that fits.
pub open spec fn u64_from_str(cs: Seq<char>) -> Option<u64> {
    let ds = unsigned_digits(cs);
    if ds.len() == 0 || !all_digits(ds) || digits_value(ds) > u64::MAX {
        None
    } else {
        Some(digits_value(ds) as u64)
    }
}

proof fn lemma_digits_value_nonneg(cs: Seq<char>)
    requires
        forall|i: int| 0 <= i < cs.len() ==> is_digit_char(#[trigger] cs[i]),
    ensures
        digits_value(cs) >= 0,
    decreases cs.len(),
{
    if cs.len() > 0 {
        lemma_digits_value_nonneg(cs.subrange(0, cs.len() - 1));
    }
}

proof fn lemma_digits_value_grows(cs: Seq<char>, j: int)
    requires
        forall|i: int| 0 <= i < cs.len() ==> is_digit_char(#[trigger] cs[i]),
        0 <= j <= cs.len(),
    ensures
        digits_value(cs.subrange(0, j)) <= digits_value(cs),
    decreases cs.len() - j,
{
    if j < cs.len() {
        lemma_digits_value_grows(cs, j + 1);
        assert(cs.subrange(0, j + 1).subrange(0, j) =~= cs.subrange(0, j));
        lemma_digits_value_nonneg(cs.subrange(0, j));
    } else {
        assert(cs.subrange(0, j) =~= cs);
    }
}

/// `str::parse::<u64>`, written out.
fn parse_u64(s: &str) -> (r: Option<u64>)
    ensures
        r == u64_from_str(s@),
{
    let n = s.unicode_len();
    let mut i: usize = 0;
    if n > 0 && s.get_char(0) == '+' {
        i = 1;
    }
    let ghost ds = unsigned_digits(s@);
    let ghost start = i;
    assert(ds =~= s@.subrange(start as int, n as int));
    if i == n {
        return None;
    }
    let mut v: u64 = 0;
    while i < n
        invariant
            n == s@.len(),
            start <= i <= n,
            ds == unsigned_digits(s@),
            ds =~= s@.subrange(start as int, n as int),
            forall|k: int| 0 <= k < i - start ==> is_digit_char(#[trigger] ds[k]),
            v == digits_value(ds.subrange(0, i - start)),
        decreases n - i,
    {
        let c = s.get_char(i);
        let d = c as u32;
        if d < 48 || d > 57 {
            assert(ds[i - start] == c);
            assert(!is_digit_char(ds[i - start]));
            return None;
        }
        let ghost prefix = ds.subrange(0, i + 1 - start);
        assert(prefix.subrange(0, i - start) =~= ds.subrange(0, i - start));
        proof {
            if all_digits(ds) {
                lemma_digits_value_grows(ds, i + 1 - start);
            }
        }
        let m = v.checked_mul(10);
        match m {
            None => {
                return None;
            },
            Some(m) => {
                let a = m.checked_add((d - 48) as u64);
                match a {
                    None => {
                        return None;
                    },
                    Some(a) => {
                        v = a;
                    },
                }
            },
        }
        i += 1;
    }
    assert(ds.subrange(0, n - start) =~= ds);
    Some(v)
}

/// A string token's text loses its first and last byte (the quotes) where
/// it has two bytes or more; this can be done only where both are whole
/// characters.
pub open spec fn quotes_cut_off_ok(t: Seq<char>) -> bool {
    vstd::utf8::encode_utf8(t).len() < 2 || (utf8_width(t[0]) == 1 && utf8_width(t[t.len() - 1]) == 1)
}

/// The text of a string literal: its characters without the first and the
/// last, where there are two or more bytes; else the whole text.
pub open spec fn string_literal_text(t: Seq<char>) -> Seq<char> {
    if vstd::utf8::encode_utf8(t).len() >= 2 {
        t.subrange(1, t.len() - 1)
    } else {
        t
    }
}

} // verus!

verus! {

proof fn lemma_encode_len_single(t: Seq<char>)
    requires
        t.len() == 1,
    ensures
        vstd::utf8::encode_utf8(t).len() == utf8_width(t[0]),
{
    assert(t.drop_first() =~= Seq::<char>::empty());
    assert(vstd::utf8::encode_utf8(t.drop_first()) =~= Seq::<u8>::empty());
}

proof fn lemma_encode_len_ge(t: Seq<char>)
    ensures
        vstd::utf8::encode_utf8(t).len() >= t.len(),
    decreases t.len(),
{
    if t.len() > 0 {
        lemma_encode_len_ge(t.drop_first());
    }
}

// ---------------------------------------------------------------------------
// Expressions, as values.

pub open spec fn mk_binder(open: TokenKind, span: Span, name: Seq<char>, ty: ExprV) -> BinderV {
    if open == TokenKind::LParen {
        BinderV::Explicit(span, name, Box::new(ty))
    } else if open == TokenKind::LBrace {
        BinderV::Implicit(span, name, Box::new(ty))
    } else {
        BinderV::Instance(span, name, Box::new(ty))
    }
}

/// The type a binder annotates.
pub open spec fn binder_type(b: BinderV) -> ExprV {
    match b {
        BinderV::Explicit(_, _, t) => *t,
        BinderV::Implicit(_, _, t) => *t,
        BinderV::Instance(_, _, t) => *t,
    }
}

/// From the token at `i` on, with `depth` delimiters open: whether a `close`
/// brings the depth to zero before a comma at depth one.
pub open spec fn spec_scan(ts: Seq<TokenV>, i: int, depth: int, open: TokenKind, close: TokenKind) -> bool
    decreases ts.len() - i,
{
    if 0 <= i < ts.len() {
        let k = ts[i].kind;
        if k == open {
            spec_scan(ts, i + 1, depth + 1, open, close)
        } else if k == close {
            if depth - 1 == 0 {
                true
            } else {
                spec_scan(ts, i + 1, depth - 1, open, close)
            }
        } else if k == TokenKind::Comma && depth == 1 {
            false
        } else {
            spec_scan(ts, i + 1, depth, open, close)
        }
    } else {
        false
    }
}

/// The comparison a token kind stands for.
pub open spec fn cmp_op(k: TokenKind) -> Option<InfixOp> {
    if k == TokenKind::EqualEqual {
        Some(InfixOp::Eq)
    } else if k == TokenKind::BangEqual {
        Some(InfixOp::Neq)
    } else if k == TokenKind::LessEqual {
        Some(InfixOp::Leq)
    } else if k == TokenKind::GreaterEqual {
        Some(InfixOp::Geq)
    } else if k == TokenKind::Less {
        Some(InfixOp::Lt)
    } else if k == TokenKind::Greater {
        Some(InfixOp::Gt)
    } else {
        None
    }
}

/// The additive operator a token kind stands for.
pub open spec fn add_op(k: TokenKind) -> Option<InfixOp> {
    if k == TokenKind::Plus {
        Some(InfixOp::Add)
    } else if k == TokenKind::Minus {
        Some(InfixOp::Sub)
    } else {
        None
    }
}

/// The multiplicative operator a token kind stands for.
pub open spec fn mul_op(k: TokenKind) -> Option<InfixOp> {
    if k == TokenKind::Star {
        Some(InfixOp::Mul)
    } else if k == TokenKind::Slash {
        Some(InfixOp::Div)
    } else {
        None
    }
}

/// A token kind that can start an argument of an application.
pub open spec fn atom_start(k: TokenKind) -> bool {
    k == TokenKind::LowerIdentifier || k == TokenKind::UpperIdentifier || k == TokenKind::Number || k
        == TokenKind::String || k == TokenKind::Underscore || k == TokenKind::LParen || k
        == TokenKind::LBracket
}

/// The infix node over two operands, spanning both.
pub open spec fn infix(op: InfixOp, lhs: ExprV, rhs: ExprV) -> ExprV {
    ExprV::InfixOp {
        span: join(expr_span(lhs), expr_span(rhs)),
        op,
        lhs: Box::new(lhs),
        rhs: Box::new(rhs),
    }
}

/// The parser moved forward (or stayed) within the tokens.
pub open spec fn fwd(ts: Seq<TokenV>, a: PState, b: PState) -> bool {
    a.pos <= b.pos <= ts.len()
}

/// Where a delimited binder opens at `s`, its closing token is looked for
/// where a token still stands (an end-of-file token can close a binder only
/// if the type does not run to the end of the input).
pub open spec fn closing_token_reachable(ts: Seq<TokenV>, f: usize, s: PState, open: TokenKind, close: TokenKind) -> bool {
    close != TokenKind::EndOfFile || !(0 <= s.pos && s.pos + 2 < ts.len() && ts[s.pos].kind == open
        && ts[s.pos + 1].kind == TokenKind::LowerIdentifier && ts[s.pos + 2].kind == TokenKind::Colon
        && spec_scan(ts, s.pos, 0, open, close)) || spec_parse_expr(ts, f, PState { pos: s.pos + 3, ..s }).1.pos
        < ts.len()
}

pub open spec fn spec_try_delimited_binder(
    ts: Seq<TokenV>,
    f: usize,
    s: PState,
    open: TokenKind,
    close: TokenKind,
) -> (Option<BinderV>, PState)
    decreases ts.len() - s.pos, 0nat,
{
    if 0 <= s.pos && s.pos + 2 < ts.len() && ts[s.pos].kind == open && ts[s.pos + 1].kind
        == TokenKind::LowerIdentifier && ts[s.pos + 2].kind == TokenKind::Colon && spec_scan(
        ts,
        s.pos,
        0,
        open,
        close,
    ) {
        let open_tok = ts[s.pos];
        let name_tok = ts[s.pos + 1];
        let (ty, s4) = spec_parse_expr(ts, f, PState { pos: s.pos + 3, ..s });
        let (close_tok, s5) = spec_expect(ts, f, s4, close);
        (
            Some(mk_binder(open, join(open_tok.span, close_tok.span), token_text(name_tok.lexeme), ty)),
            s5,
        )
    } else {
        (None, s)
    }
}

pub open spec fn spec_try_parse_binder(ts: Seq<TokenV>, f: usize, s: PState) -> (Option<BinderV>, PState)
    decreases ts.len() - s.pos, 1nat,
{
    let k = peek_kind(ts, s.pos);
    if k == TokenKind::LParen {
        spec_try_delimited_binder(ts, f, s, TokenKind::LParen, TokenKind::RParen)
    } else if k == TokenKind::LBrace {
        spec_try_delimited_binder(ts, f, s, TokenKind::LBrace, TokenKind::RBrace)
    } else if k == TokenKind::LBracket {
        spec_try_delimited_binder(ts, f, s, TokenKind::LBracket, TokenKind::RBracket)
    } else {
        (None, s)
    }
}

/// As many binders as follow, appended to `acc`.
pub open spec fn spec_parse_binders(ts: Seq<TokenV>, f: usize, s: PState, acc: Seq<BinderV>) -> (Seq<BinderV>, PState)
    decreases ts.len() - s.pos, 2nat,
{
    let (b, s1) = spec_try_parse_binder(ts, f, s);
    match b {
        Some(b) => if s.pos < s1.pos <= ts.len() {
            spec_parse_binders(ts, f, s1, acc.push(b))
        } else {
            (acc.push(b), s1)
        },
        None => (acc, s),
    }
}

/// What parsing an expression at `s` gives: a lambda, a let, a binder
/// followed by `->` or `*`, or a comparison, maybe followed by `->` or `*`.
pub open spec fn spec_parse_expr(ts: Seq<TokenV>, f: usize, s: PState) -> (ExprV, PState)
    decreases ts.len() - s.pos, 12nat,
{
    let k = peek_kind(ts, s.pos);
    if k == TokenKind::Lambda {
        spec_parse_lambda(ts, f, s)
    } else if k == TokenKind::Let {
        spec_parse_let(ts, f, s)
    } else {
        let (b, s1) = spec_try_parse_binder(ts, f, s);
        match b {
            Some(binder) => if !(s.pos < s1.pos <= ts.len()) {
                (binder_type(binder), s1)
            } else if at(ts, s1, TokenKind::Arrow) {
                let (body, s2) = spec_parse_expr(ts, f, advance(s1));
                (
                    ExprV::Pi {
                        span: join(binder_span(binder), expr_span(body)),
                        binder,
                        codomain: Box::new(body),
                    },
                    s2,
                )
            } else if at(ts, s1, TokenKind::Product) {
                let (body, s2) = spec_parse_expr(ts, f, advance(s1));
                (
                    ExprV::Sigma {
                        span: join(binder_span(binder), expr_span(body)),
                        binder,
                        codomain: Box::new(body),
                    },
                    s2,
                )
            } else {
                spec_arrow_rhs(ts, f, s1, binder_type(binder))
            },
            None => {
                let (lhs, s2) = spec_parse_cmp(ts, f, s);
                if fwd(ts, s, s2) {
                    spec_arrow_rhs(ts, f, s2, lhs)
                } else {
                    (lhs, s2)
                }
            },
        }
    }
}

/// `lhs -> e`, `lhs × e`, or `lhs` alone.
pub open spec fn spec_arrow_rhs(ts: Seq<TokenV>, f: usize, s: PState, lhs: ExprV) -> (ExprV, PState)
    decreases ts.len() - s.pos, 11nat,
{
    if at(ts, s, TokenKind::Arrow) {
        let (rhs, s2) = spec_parse_expr(ts, f, advance(s));
        (
            ExprV::Arrow {
                span: join(expr_span(lhs), expr_span(rhs)),
                param_type: Box::new(lhs),
                return_type: Box::new(rhs),
            },
            s2,
        )
    } else if at(ts, s, TokenKind::Product) {
        let (rhs, s2) = spec_parse_expr(ts, f, advance(s));
        let ls = expr_span(lhs);
        (
            ExprV::Sigma {
                span: join(ls, expr_span(rhs)),
                binder: BinderV::Explicit(ls, seq!['_'], Box::new(lhs)),
                codomain: Box::new(rhs),
            },
            s2,
        )
    } else {
        (lhs, s)
    }
}

/// The error of a lambda without binders.
pub open spec fn no_binders_error(ts: Seq<TokenV>, f: usize, s: PState) -> ParseErrorV {
    unexpected_here(ts, f, s, seq![TokenKind::LParen, TokenKind::LBrace, TokenKind::LBracket])
}

/// What parsing a lambda at `s` gives.
pub open spec fn spec_parse_lambda(ts: Seq<TokenV>, f: usize, s: PState) -> (ExprV, PState)
    decreases ts.len() - s.pos, 11nat,
{
    let kw = ts[s.pos];
    let s1 = advance(s);
    if !(0 <= s.pos < ts.len()) {
        (ExprV::Hole(kw.span), s1)
    } else {
        let (binders, s2) = spec_parse_binders(ts, f, s1, seq![]);
        if !fwd(ts, s1, s2) {
            (ExprV::Hole(kw.span), s2)
        } else {
            let s3 = if binders.len() == 0 {
                push_err(s2, no_binders_error(ts, f, s2))
            } else {
                s2
            };
            let (_, s4) = spec_expect(ts, f, s3, TokenKind::FatArrow);
            let (body, s5) = spec_parse_expr(ts, f, s4);
            (
                ExprV::Lambda {
                    span: join(kw.span, expr_span(body)),
                    binders,
                    body: Box::new(body),
                },
                s5,
            )
        }
    }
}

/// What parsing a let expression at `s` gives.
pub open spec fn spec_parse_let(ts: Seq<TokenV>, f: usize, s: PState) -> (ExprV, PState)
    decreases ts.len() - s.pos, 11nat,
{
    let kw = ts[s.pos];
    let s1 = advance(s);
    if !(0 <= s.pos < ts.len()) {
        (ExprV::Hole(kw.span), s1)
    } else {
        let (name_tok, s2) = spec_expect(ts, f, s1, TokenKind::LowerIdentifier);
        let (type_ann, s3) = if at(ts, s2, TokenKind::Colon) {
            let (ty, s3) = spec_parse_expr(ts, f, advance(s2));
            (Some(Box::new(ty)), s3)
        } else {
            (None, s2)
        };
        if !fwd(ts, s2, s3) {
            (ExprV::Hole(kw.span), s3)
        } else {
            let (_, s4) = spec_expect(ts, f, s3, TokenKind::Equal);
            let (value, s5) = spec_parse_expr(ts, f, s4);
            if !fwd(ts, s4, s5) {
                (ExprV::Hole(kw.span), s5)
            } else {
                let (_, s6) = spec_expect(ts, f, s5, TokenKind::In);
                let (body, s7) = spec_parse_expr(ts, f, s6);
                (
                    ExprV::Let {
                        span: join(kw.span, expr_span(body)),
                        name: token_text(name_tok.lexeme),
                        type_ann,
                        value: Box::new(value),
                        body: Box::new(body),
                    },
                    s7,
                )
            }
        }
    }
}

/// What parsing a comparison (at most one operator) at `s` gives.
pub open spec fn spec_parse_cmp(ts: Seq<TokenV>, f: usize, s: PState) -> (ExprV, PState)
    decreases ts.len() - s.pos, 10nat,
{
    let (lhs, s1) = spec_parse_add(ts, f, s);
    match cmp_op(peek_kind(ts, s1.pos)) {
        None => (lhs, s1),
        Some(op) => if fwd(ts, s, s1) {
            let (rhs, s2) = spec_parse_add(ts, f, advance(s1));
            (infix(op, lhs, rhs), s2)
        } else {
            (lhs, s1)
        },
    }
}

/// `e` is an infix node of operator `op` whose left operand is `lhs`.
pub open spec fn is_comparison(e: ExprV, op: InfixOp, lhs: ExprV) -> bool {
    e matches ExprV::InfixOp { op: o, lhs: l, .. } && o == op && *l == lhs
}

/// A comparison carries the operator its token names: `==` gives `Eq`, `!=`
/// gives `Neq`, `<=` gives `Leq`, `>=` gives `Geq`, `<` gives `Lt` and `>`
/// gives `Gt`, with the sum before the token on the left; after any other
/// token the sum stands alone.
pub proof fn law_comparison_operator(ts: Seq<TokenV>, f: usize, s: PState)
    ensures
        ({
            let (lhs, s1) = spec_parse_add(ts, f, s);
            let (e, s2) = spec_parse_cmp(ts, f, s);
            let k = peek_kind(ts, s1.pos);
            s.pos <= s1.pos <= ts.len() ==> {
                &&& k == TokenKind::EqualEqual ==> is_comparison(e, InfixOp::Eq, lhs)
                &&& k == TokenKind::BangEqual ==> is_comparison(e, InfixOp::Neq, lhs)
                &&& k == TokenKind::LessEqual ==> is_comparison(e, InfixOp::Leq, lhs)
                &&& k == TokenKind::GreaterEqual ==> is_comparison(e, InfixOp::Geq, lhs)
                &&& k == TokenKind::Less ==> is_comparison(e, InfixOp::Lt, lhs)
                &&& k == TokenKind::Greater ==> is_comparison(e, InfixOp::Gt, lhs)
                &&& (k != TokenKind::EqualEqual && k != TokenKind::BangEqual && k != TokenKind::LessEqual
                    && k != TokenKind::GreaterEqual && k != TokenKind::Less && k != TokenKind::Greater) ==> e
                    == lhs && s2 == s1
            }
        }),
{
}

/// What parsing a sum or difference at `s` gives (left associative).
pub open spec fn spec_parse_add(ts: Seq<TokenV>, f: usize, s: PState) -> (ExprV, PState)
    decreases ts.len() - s.pos, 9nat,
{
    let (lhs, s1) = spec_parse_mul(ts, f, s);
    if fwd(ts, s, s1) {
        spec_add_rest(ts, f, s1, lhs)
    } else {
        (lhs, s1)
    }
}

pub open spec fn spec_add_rest(ts: Seq<TokenV>, f: usize, s: PState, lhs: ExprV) -> (ExprV, PState)
    decreases ts.len() - s.pos, 8nat,
{
    match add_op(peek_kind(ts, s.pos)) {
        None => (lhs, s),
        Some(op) => {
            let (rhs, s2) = spec_parse_mul(ts, f, advance(s));
            if s.pos < s2.pos <= ts.len() {
                spec_add_rest(ts, f, s2, infix(op, lhs, rhs))
            } else {
                (infix(op, lhs, rhs), s2)
            }
        },
    }
}

/// One step of a sum: after `lhs`, a `+` builds an `Add` node and a `-` a
/// `Sub` node over `lhs` and the product that follows, spanning both, and the
/// sum goes on from there; after any other token the sum is `lhs`.
pub proof fn law_additive_operator(ts: Seq<TokenV>, f: usize, s: PState, lhs: ExprV)
    ensures
        ({
            let k = peek_kind(ts, s.pos);
            let (rhs, s2) = spec_parse_mul(ts, f, advance(s));
            let node = |op: InfixOp|
                ExprV::InfixOp {
                    span: Span {
                        file: expr_span(lhs).file,
                        start: expr_span(lhs).start,
                        end: expr_span(rhs).end,
                    },
                    op,
                    lhs: Box::new(lhs),
                    rhs: Box::new(rhs),
                };
            &&& (k == TokenKind::Plus && s.pos < s2.pos <= ts.len()) ==> spec_add_rest(ts, f, s, lhs)
                == spec_add_rest(ts, f, s2, node(InfixOp::Add))
            &&& (k == TokenKind::Minus && s.pos < s2.pos <= ts.len()) ==> spec_add_rest(ts, f, s, lhs)
                == spec_add_rest(ts, f, s2, node(InfixOp::Sub))
            &&& (k != TokenKind::Plus && k != TokenKind::Minus) ==> spec_add_rest(ts, f, s, lhs) == (lhs, s)
        }),
{
}

/// One step of a product: after `lhs`, a `*` builds a `Mul` node and a `/`
/// a `Div` node over `lhs` and the application that follows, spanning both,
/// and the product goes on from there; after any other token the product is
/// `lhs`.
pub proof fn law_multiplicative_operator(ts: Seq<TokenV>, f: usize, s: PState, lhs: ExprV)
    ensures
        ({
            let k = peek_kind(ts, s.pos);
            let (rhs, s2) = spec_parse_app(ts, f, advance(s));
            let node = |op: InfixOp|
                ExprV::InfixOp {
                    span: Span {
                        file: expr_span(lhs).file,
                        start: expr_span(lhs).start,
                        end: expr_span(rhs).end,
                    },
                    op,
                    lhs: Box::new(lhs),
                    rhs: Box::new(rhs),
                };
            &&& (k == TokenKind::Star && s.pos < s2.pos <= ts.len()) ==> spec_mul_rest(ts, f, s, lhs)
                == spec_mul_rest(ts, f, s2, node(InfixOp::Mul))
            &&& (k == TokenKind::Slash && s.pos < s2.pos <= ts.len()) ==> spec_mul_rest(ts, f, s, lhs)
                == spec_mul_rest(ts, f, s2, node(InfixOp::Div))
            &&& (k != TokenKind::Star && k != TokenKind::Slash) ==> spec_mul_rest(ts, f, s, lhs) == (lhs, s)
        }),
{
}

/// What parsing a product or quotient at `s` gives (left associative).
pub open spec fn spec_parse_mul(ts: Seq<TokenV>, f: usize, s: PState) -> (ExprV, PState)
    decreases ts.len() - s.pos, 7nat,
{
    let (lhs, s1) = spec_parse_app(ts, f, s);
    if fwd(ts, s, s1) {
        spec_mul_rest(ts, f, s1, lhs)
    } else {
        (lhs, s1)
    }
}

pub open spec fn spec_mul_rest(ts: Seq<TokenV>, f: usize, s: PState, lhs: ExprV) -> (ExprV, PState)
    decreases ts.len() - s.pos, 6nat,
{
    match mul_op(peek_kind(ts, s.pos)) {
        None => (lhs, s),
        Some(op) => {
            let (rhs, s2) = spec_parse_app(ts, f, advance(s));
            if s.pos < s2.pos <= ts.len() {
                spec_mul_rest(ts, f, s2, infix(op, lhs, rhs))
            } else {
                (infix(op, lhs, rhs), s2)
            }
        },
    }
}

/// What parsing an application at `s` gives (left associative).
pub open spec fn spec_parse_app(ts: Seq<TokenV>, f: usize, s: PState) -> (ExprV, PState)
    decreases ts.len() - s.pos, 5nat,
{
    let (lhs, s1) = spec_parse_proj(ts, f, s);
    if fwd(ts, s, s1) {
        spec_app_rest(ts, f, s1, lhs)
    } else {
        (lhs, s1)
    }
}

pub open spec fn spec_app_rest(ts: Seq<TokenV>, f: usize, s: PState, lhs: ExprV) -> (ExprV, PState)
    decreases ts.len() - s.pos, 4nat,
{
    if atom_start(peek_kind(ts, s.pos)) {
        let (rhs, s2) = spec_parse_proj(ts, f, s);
        let e = ExprV::App {
            span: join(expr_span(lhs), expr_span(rhs)),
            fun: Box::new(lhs),
            arg: Box::new(rhs),
        };
        if s.pos < s2.pos <= ts.len() {
            spec_app_rest(ts, f, s2, e)
        } else {
            (e, s2)
        }
    } else {
        (lhs, s)
    }
}

/// What parsing an atom followed by field projections at `s` gives.
pub open spec fn spec_parse_proj(ts: Seq<TokenV>, f: usize, s: PState) -> (ExprV, PState)
    decreases ts.len() - s.pos, 3nat,
{
    let (lhs, s1) = spec_parse_expr_atom(ts, f, s);
    spec_proj_rest(ts, f, s1, lhs)
}

/// The field projections `.x` that follow an atom.
pub open spec fn spec_proj_rest(ts: Seq<TokenV>, f: usize, s: PState, lhs: ExprV) -> (ExprV, PState)
    decreases ts.len() - s.pos,
{
    if at(ts, s, TokenKind::Dot) {
        let (field_tok, s2) = spec_expect(ts, f, advance(s), TokenKind::LowerIdentifier);
        spec_proj_rest(
            ts,
            f,
            s2,
            ExprV::Proj {
                span: join(expr_span(lhs), field_tok.span),
                value: Box::new(lhs),
                field: token_text(field_tok.lexeme),
            },
        )
    } else {
        (lhs, s)
    }
}

/// The expressions `, e` that follow a first one inside brackets.
pub open spec fn spec_expr_list_rest(ts: Seq<TokenV>, f: usize, s: PState, acc: Seq<ExprV>) -> (Seq<ExprV>, PState)
    decreases ts.len() - s.pos, 1nat,
{
    if at(ts, s, TokenKind::Comma) {
        let (x, s1) = spec_parse_expr(ts, f, advance(s));
        if s.pos < s1.pos <= ts.len() {
            spec_expr_list_rest(ts, f, s1, acc.push(x))
        } else {
            (acc.push(x), s1)
        }
    } else {
        (acc, s)
    }
}

/// The expressions between an opening bracket at `s` and `close`, and the
/// closing token.
pub open spec fn spec_bracketed(ts: Seq<TokenV>, f: usize, s: PState, close: TokenKind) -> (Seq<ExprV>, TokenV, PState)
    decreases ts.len() - s.pos, 1nat,
{
    let s1 = advance(s);
    let (items, s2) = if at(ts, s1, close) || !(0 <= s.pos < ts.len()) {
        (Seq::<ExprV>::empty(), s1)
    } else {
        let (x, s1a) = spec_parse_expr(ts, f, s1);
        if fwd(ts, s1, s1a) {
            spec_expr_list_rest(ts, f, s1a, seq![x])
        } else {
            (seq![x], s1a)
        }
    };
    let (ct, s3) = spec_expect(ts, f, s2, close);
    (items, ct, s3)
}

/// The literal of a string token with text `t`.
pub open spec fn string_literal(t: Seq<char>) -> LiteralV {
    if quotes_cut_off_ok(t) {
        LiteralV::Str(string_literal_text(t))
    } else {
        LiteralV::Str(t)
    }
}

/// What parsing an atom at `s` gives.
pub open spec fn spec_parse_expr_atom(ts: Seq<TokenV>, f: usize, s: PState) -> (ExprV, PState)
    decreases ts.len() - s.pos, 2nat,
{
    let k = peek_kind(ts, s.pos);
    if k == TokenKind::Number {
        let tok = ts[s.pos];
        let n = match u64_from_str(token_text(tok.lexeme)) {
            Some(n) => n,
            None => 0,
        };
        (ExprV::Lit { value: LiteralV::Nat(n), span: tok.span }, advance(s))
    } else if k == TokenKind::String {
        let tok = ts[s.pos];
        let t = token_text(tok.lexeme);
        let s1 = if quotes_cut_off_ok(t) {
            advance(s)
        } else {
            PState { fault: true, ..advance(s) }
        };
        (ExprV::Lit { value: string_literal(t), span: tok.span }, s1)
    } else if k == TokenKind::Underscore {
        (ExprV::Hole(ts[s.pos].span), advance(s))
    } else if k == TokenKind::LParen {
        let lp = ts[s.pos];
        let (items, rp, s3) = spec_bracketed(ts, f, s, TokenKind::RParen);
        let span = join(lp.span, rp.span);
        if items.len() == 0 {
            (ExprV::Unit(span), s3)
        } else if items.len() == 1 {
            (items[0], s3)
        } else {
            (ExprV::Tuple { elements: items, span }, s3)
        }
    } else if k == TokenKind::LBracket {
        let lb = ts[s.pos];
        let (items, rb, s3) = spec_bracketed(ts, f, s, TokenKind::RBracket);
        (ExprV::Array { elements: items, span: join(lb.span, rb.span) }, s3)
    } else if k == TokenKind::LowerIdentifier || k == TokenKind::UpperIdentifier {
        let (qn, s1) = spec_qualified_name(ts, s);
        if qn.is_upper {
            (ExprV::Constructor { name: qn.name, namespace: qn.namespace, span: qn.span }, s1)
        } else {
            (ExprV::Var { namespace: qn.namespace, member: qn.name, span: qn.span }, s1)
        }
    } else {
        let span = span_at(ts, f, s.pos);
        let s1 = push_err(s, missing_here(ts, f, s, seq![]));
        (ExprV::Hole(span), if 0 <= s.pos < ts.len() { advance(s1) } else { s1 })
    }
}

} // verus!

verus! {

// ---------------------------------------------------------------------------
// Expressions.

pub open spec fn opt_binder_v(b: Option<Binder>) -> Option<BinderV> {
    match b {
        Some(b) => Some(b@),
        None => None,
    }
}

fn scan_for_close_before_comma(p: &Parser, open: TokenKind, close: TokenKind) -> (b: bool)
    requires
        p.wf(),
    ensures
        b == spec_scan(p.toks(), p.pos as int, 0, open, close),
{
    let ghost ts = p.toks();
    let mut depth: i32 = 0;
    let mut i = p.pos;
    while i < p.tokens.len()
        invariant
            p.wf(),
            ts == p.toks(),
            p.pos <= i <= p.tokens@.len(),
            -(i - p.pos) <= depth <= i - p.pos,
            spec_scan(ts, i as int, depth as int, open, close) == spec_scan(ts, p.pos as int, 0, open, close),
        decreases p.tokens@.len() - i,
    {
        let kind = p.tokens[i].kind;
        if kind == open {
            depth += 1;
        } else if kind == close {
            depth -= 1;
            if depth == 0 {
                return true;
            }
        } else if kind == TokenKind::Comma && depth == 1 {
            return false;
        }
        i += 1;
    }
    false
}

fn try_parse_delimited_binder(p: &mut Parser, open: TokenKind, close: TokenKind) -> (r: Option<Binder>)
    requires
        old(p).wf(),
        closing_token_reachable(old(p).toks(), old(p).file, old(p).state(), open, close),
    ensures
        steps(*old(p), *final(p)),
        r is Some ==> old(p).pos < final(p).pos,
        (opt_binder_v(r), final(p).state()) == spec_try_delimited_binder(old(p).toks(), old(p).file, old(p).state(), open, close),
    decreases old(p).tokens@.len() - old(p).pos, 0nat,
{
    if p.pos + 2 < p.tokens.len() && p.tokens[p.pos].kind == open && p.tokens[p.pos + 1].kind
        == TokenKind::LowerIdentifier && p.tokens[p.pos + 2].kind == TokenKind::Colon
        && scan_for_close_before_comma(p, open, close) {
        let open_tok = p.bump();
        let name_tok = p.bump();
        p.bump();
        let ty = parse_expr(p);
        let close_tok = p.expect(close);
        let span = Span::new(open_tok.span.file, open_tok.span.start, close_tok.span.end);
        let name = lexeme_to_string(name_tok.lexeme);
        if open == TokenKind::LParen {
            Some(Binder::Explicit(span, name, Box::new(ty)))
        } else if open == TokenKind::LBrace {
            Some(Binder::Implicit(span, name, Box::new(ty)))
        } else {
            Some(Binder::Instance(span, name, Box::new(ty)))
        }
    } else {
        None
    }
}

fn try_parse_binder(p: &mut Parser) -> (r: Option<Binder>)
    requires
        old(p).wf(),
    ensures
        steps(*old(p), *final(p)),
        r is Some ==> old(p).pos < final(p).pos,
        (opt_binder_v(r), final(p).state()) == spec_try_parse_binder(old(p).toks(), old(p).file, old(p).state()),
    decreases old(p).tokens@.len() - old(p).pos, 1nat,
{
    match p.peek() {
        TokenKind::LParen => try_parse_delimited_binder(p, TokenKind::LParen, TokenKind::RParen),
        TokenKind::LBrace => try_parse_delimited_binder(p, TokenKind::LBrace, TokenKind::RBrace),
        TokenKind::LBracket => try_parse_delimited_binder(p, TokenKind::LBracket, TokenKind::RBracket),
        _ => None,
    }
}

fn parse_binders(p: &mut Parser) -> (r: Vec<Binder>)
    requires
        old(p).wf(),
    ensures
        steps(*old(p), *final(p)),
        (binders_v(r@), final(p).state()) == spec_parse_binders(old(p).toks(), old(p).file, old(p).state(), seq![]),
    decreases old(p).tokens@.len() - old(p).pos, 2nat,
{
    let ghost ts = p.toks();
    let ghost f = p.file;
    let ghost target = spec_parse_binders(ts, f, p.state(), seq![]);
    let mut binders: Vec<Binder> = Vec::new();
    assert(binders_v(binders@) =~= seq![]);
    loop
        invariant_except_break
            spec_parse_binders(ts, f, p.state(), binders_v(binders@)) == target,
        invariant
            p.wf(),
            p.toks() == ts,
            p.file == f,
            steps(*old(p), *p),
        ensures
            binders_v(binders@) == target.0,
            p.state() == target.1,
        decreases p.tokens@.len() - p.pos,
    {
        match try_parse_binder(p) {
            Some(b) => {
                proof {
                    lemma_binders_v_push(binders@, b);
                }
                binders.push(b);
            },
            None => {
                break;
            },
        }
    }
    binders
}

#[verifier::spinoff_prover]
#[verifier::rlimit(60)]
fn parse_expr(p: &mut Parser) -> (e: SyntaxExpr)
    requires
        old(p).wf(),
    ensures
        steps(*old(p), *final(p)),
        (e@, final(p).state()) == spec_parse_expr(old(p).toks(), old(p).file, old(p).state()),
    decreases old(p).tokens@.len() - old(p).pos, 12nat,
{
    match p.peek() {
        TokenKind::Lambda => return parse_lambda(p),
        TokenKind::Let => return parse_let(p),
        _ => {},
    }
    if let Some(binder) = try_parse_binder(p) {
        if p.at(TokenKind::Arrow) {
            p.bump();
            let body = parse_expr(p);
            let bs = binder.span();
            return SyntaxExpr::Pi {
                span: Span::new(bs.file, bs.start, body.span().end),
                binder,
                codomain: Box::new(body),
            };
        } else if p.at(TokenKind::Product) {
            p.bump();
            let body = parse_expr(p);
            let bs = binder.span();
            return SyntaxExpr::Sigma {
                span: Span::new(bs.file, bs.start, body.span().end),
                binder,
                codomain: Box::new(body),
            };
        }
        let expr = match binder {
            Binder::Explicit(_, _, ty) => *ty,
            Binder::Implicit(_, _, ty) => *ty,
            Binder::Instance(_, _, ty) => *ty,
        };
        return parse_arrow_or_product_rhs(p, expr);
    }
    let lhs = parse_cmp(p);
    parse_arrow_or_product_rhs(p, lhs)
}

fn parse_arrow_or_product_rhs(p: &mut Parser, lhs: SyntaxExpr) -> (e: SyntaxExpr)
    requires
        old(p).wf(),
    ensures
        steps(*old(p), *final(p)),
        (e@, final(p).state()) == spec_arrow_rhs(old(p).toks(), old(p).file, old(p).state(), lhs@),
    decreases old(p).tokens@.len() - old(p).pos, 11nat,
{
    if p.at(TokenKind::Arrow) {
        p.bump();
        let rhs = parse_expr(p);
        let ls = lhs.span();
        SyntaxExpr::Arrow {
            span: Span::new(ls.file, ls.start, rhs.span().end),
            param_type: Box::new(lhs),
            return_type: Box::new(rhs),
        }
    } else if p.at(TokenKind::Product) {
        p.bump();
        let rhs = parse_expr(p);
        let lhs_span = lhs.span();
        let underscore = String::from_str("_");
        proof {
            reveal_strlit("_");
            assert(underscore@ =~= seq!['_']);
        }
        let ghost lv = lhs@;
        let b = Binder::Explicit(lhs_span, underscore, Box::new(lhs));
        assert(b@ == BinderV::Explicit(lhs_span, seq!['_'], Box::new(lv)));
        let r = SyntaxExpr::Sigma {
            span: Span::new(lhs_span.file, lhs_span.start, rhs.span().end),
            binder: b,
            codomain: Box::new(rhs),
        };
        assert(r@ == ExprV::Sigma {
            span: join(expr_span(lv), expr_span(rhs@)),
            binder: BinderV::Explicit(lhs_span, seq!['_'], Box::new(lv)),
            codomain: Box::new(rhs@),
        });
        r
    } else {
        lhs
    }
}

fn parse_lambda(p: &mut Parser) -> (e: SyntaxExpr)
    requires
        old(p).wf(),
        peek_kind(old(p).toks(), old(p).pos as int) == TokenKind::Lambda,
    ensures
        steps(*old(p), *final(p)),
        (e@, final(p).state()) == spec_parse_lambda(old(p).toks(), old(p).file, old(p).state()),
    decreases old(p).tokens@.len() - old(p).pos, 11nat,
{
    let kw = p.bump();
    let binders = parse_binders(p);
    proof {
        lemma_binders_v_len(binders@);
    }
    if binders.len() == 0 {
        let span = p.current_span();
        let found = p.peek();
        let err = ParseError {
            kind: ParseErrorKind::UnexpectedToken,
            span,
            expected: vec![TokenKind::LParen, TokenKind::LBrace, TokenKind::LBracket],
            found: Some(found),
        };
        assert(err.expected@ =~= seq![TokenKind::LParen, TokenKind::LBrace, TokenKind::LBracket]);
        p.push_error(err);
    }
    p.expect(TokenKind::FatArrow);
    let body = parse_expr(p);
    SyntaxExpr::Lambda {
        span: Span::new(kw.span.file, kw.span.start, body.span().end),
        binders,
        body: Box::new(body),
    }
}

fn parse_let(p: &mut Parser) -> (e: SyntaxExpr)
    requires
        old(p).wf(),
        peek_kind(old(p).toks(), old(p).pos as int) == TokenKind::Let,
    ensures
        steps(*old(p), *final(p)),
        (e@, final(p).state()) == spec_parse_let(old(p).toks(), old(p).file, old(p).state()),
    decreases old(p).tokens@.len() - old(p).pos, 11nat,
{
    let kw = p.bump();
    let name_tok = p.expect(TokenKind::LowerIdentifier);
    let type_ann = if p.at(TokenKind::Colon) {
        p.bump();
        let ty = parse_expr(p);
        Some(Box::new(ty))
    } else {
        None
    };
    p.expect(TokenKind::Equal);
    let value = parse_expr(p);
    p.expect(TokenKind::In);
    let body = parse_expr(p);
    SyntaxExpr::Let {
        span: Span::new(kw.span.file, kw.span.start, body.span().end),
        name: lexeme_to_string(name_tok.lexeme),
        type_ann,
        value: Box::new(value),
        body: Box::new(body),
    }
}

fn infix_node(op: InfixOp, lhs: SyntaxExpr, rhs: SyntaxExpr) -> (e: SyntaxExpr)
    ensures
        e@ == infix(op, lhs@, rhs@),
{
    let ls = lhs.span();
    let rs = rhs.span();
    SyntaxExpr::InfixOp { span: Span::new(ls.file, ls.start, rs.end), op, lhs: Box::new(lhs), rhs: Box::new(rhs) }
}

#[verifier::spinoff_prover]
fn parse_cmp(p: &mut Parser) -> (e: SyntaxExpr)
    requires
        old(p).wf(),
    ensures
        steps(*old(p), *final(p)),
        (e@, final(p).state()) == spec_parse_cmp(old(p).toks(), old(p).file, old(p).state()),
    decreases old(p).tokens@.len() - old(p).pos, 10nat,
{
    let lhs = parse_add(p);
    let op = match p.peek() {
        TokenKind::EqualEqual => InfixOp::Eq,
        TokenKind::BangEqual => InfixOp::Neq,
        TokenKind::LessEqual => InfixOp::Leq,
        TokenKind::GreaterEqual => InfixOp::Geq,
        TokenKind::Less => InfixOp::Lt,
        TokenKind::Greater => InfixOp::Gt,
        _ => return lhs,
    };
    p.bump();
    let rhs = parse_add(p);
    infix_node(op, lhs, rhs)
}

fn parse_add(p: &mut Parser) -> (e: SyntaxExpr)
    requires
        old(p).wf(),
    ensures
        steps(*old(p), *final(p)),
        (e@, final(p).state()) == spec_parse_add(old(p).toks(), old(p).file, old(p).state()),
    decreases old(p).tokens@.len() - old(p).pos, 9nat,
{
    let ghost ts = p.toks();
    let ghost f = p.file;
    let mut lhs = parse_mul(p);
    let ghost target = spec_add_rest(ts, f, p.state(), lhs@);
    loop
        invariant_except_break
            spec_add_rest(ts, f, p.state(), lhs@) == target,
        invariant
            p.wf(),
            p.toks() == ts,
            p.file == f,
            steps(*old(p), *p),
        ensures
            lhs@ == target.0,
            p.state() == target.1,
        decreases p.tokens@.len() - p.pos,
    {
        let op = match p.peek() {
            TokenKind::Plus => InfixOp::Add,
            TokenKind::Minus => InfixOp::Sub,
            _ => break,
        };
        p.bump();
        let rhs = parse_mul(p);
        lhs = infix_node(op, lhs, rhs);
    }
    lhs
}

fn parse_mul(p: &mut Parser) -> (e: SyntaxExpr)
    requires
        old(p).wf(),
    ensures
        steps(*old(p), *final(p)),
        (e@, final(p).state()) == spec_parse_mul(old(p).toks(), old(p).file, old(p).state()),
    decreases old(p).tokens@.len() - old(p).pos, 7nat,
{
    let ghost ts = p.toks();
    let ghost f = p.file;
    let mut lhs = parse_app(p);
    let ghost target = spec_mul_rest(ts, f, p.state(), lhs@);
    loop
        invariant_except_break
            spec_mul_rest(ts, f, p.state(), lhs@) == target,
        invariant
            p.wf(),
            p.toks() == ts,
            p.file == f,
            steps(*old(p), *p),
        ensures
            lhs@ == target.0,
            p.state() == target.1,
        decreases p.tokens@.len() - p.pos,
    {
        let op = match p.peek() {
            TokenKind::Star => InfixOp::Mul,
            TokenKind::Slash => InfixOp::Div,
            _ => break,
        };
        p.bump();
        let rhs = parse_app(p);
        lhs = infix_node(op, lhs, rhs);
    }
    lhs
}

fn parse_app(p: &mut Parser) -> (e: SyntaxExpr)
    requires
        old(p).wf(),
    ensures
        steps(*old(p), *final(p)),
        (e@, final(p).state()) == spec_parse_app(old(p).toks(), old(p).file, old(p).state()),
    decreases old(p).tokens@.len() - old(p).pos, 5nat,
{
    let ghost ts = p.toks();
    let ghost f = p.file;
    let mut lhs = parse_proj(p);
    let ghost target = spec_app_rest(ts, f, p.state(), lhs@);
    while is_atom_start(p.peek())
        invariant
            p.wf(),
            p.toks() == ts,
            p.file == f,
            steps(*old(p), *p),
            spec_app_rest(ts, f, p.state(), lhs@) == target,
        decreases p.tokens@.len() - p.pos,
    {
        let rhs = parse_proj(p);
        let ls = lhs.span();
        let rs = rhs.span();
        lhs = SyntaxExpr::App { span: Span::new(ls.file, ls.start, rs.end), fun: Box::new(lhs), arg: Box::new(rhs) };
    }
    lhs
}

fn is_atom_start(kind: TokenKind) -> (b: bool)
    ensures
        b == atom_start(kind),
{
    kind == TokenKind::LowerIdentifier || kind == TokenKind::UpperIdentifier || kind == TokenKind::Number
        || kind == TokenKind::String || kind == TokenKind::Underscore || kind == TokenKind::LParen
        || kind == TokenKind::LBracket
}

fn parse_proj(p: &mut Parser) -> (e: SyntaxExpr)
    requires
        old(p).wf(),
    ensures
        steps(*old(p), *final(p)),
        atom_start(peek_kind(old(p).toks(), old(p).pos as int)) ==> old(p).pos < final(p).pos,
        (e@, final(p).state()) == spec_parse_proj(old(p).toks(), old(p).file, old(p).state()),
    decreases old(p).tokens@.len() - old(p).pos, 3nat,
{
    let ghost ts = p.toks();
    let ghost f = p.file;
    let mut lhs = parse_expr_atom(p);
    let ghost target = spec_proj_rest(ts, f, p.state(), lhs@);
    while p.at(TokenKind::Dot)
        invariant
            p.wf(),
            p.toks() == ts,
            p.file == f,
            steps(*old(p), *p),
            atom_start(peek_kind(ts, old(p).pos as int)) ==> old(p).pos < p.pos,
            spec_proj_rest(ts, f, p.state(), lhs@) == target,
        decreases p.tokens@.len() - p.pos,
    {
        p.bump();
        let field_tok = p.expect(TokenKind::LowerIdentifier);
        let ls = lhs.span();
        lhs = SyntaxExpr::Proj {
            span: Span::new(ls.file, ls.start, field_tok.span.end),
            value: Box::new(lhs),
            field: lexeme_to_string(field_tok.lexeme),
        };
    }
    lhs
}

fn parse_bracketed<'a>(p: &mut Parser<'a>, close: TokenKind) -> (r: (Vec<SyntaxExpr>, Token<'a>))
    requires
        old(p).wf(),
        old(p).pos < old(p).tokens@.len(),
        close != TokenKind::EndOfFile,
    ensures
        steps(*old(p), *final(p)),
        old(p).pos < final(p).pos,
        (exprs_v(r.0@), r.1@, final(p).state()) == spec_bracketed(old(p).toks(), old(p).file, old(p).state(), close),
    decreases old(p).tokens@.len() - old(p).pos, 1nat,
{
    let ghost ts = p.toks();
    let ghost f = p.file;
    p.bump();
    let mut items: Vec<SyntaxExpr> = Vec::new();
    if !p.at(close) {
        let x = parse_expr(p);
        let ghost target = spec_expr_list_rest(ts, f, p.state(), seq![x@]);
        proof {
            lemma_exprs_v_push(items@, x);
        }
        items.push(x);
        assert(exprs_v(items@) =~= seq![x@]);
        while p.at(TokenKind::Comma)
            invariant
                p.wf(),
                p.toks() == ts,
                p.file == f,
                steps(*old(p), *p),
                old(p).pos < p.pos,
                spec_expr_list_rest(ts, f, p.state(), exprs_v(items@)) == target,
            decreases p.tokens@.len() - p.pos,
        {
            p.bump();
            let y = parse_expr(p);
            proof {
                lemma_exprs_v_push(items@, y);
            }
            items.push(y);
        }
    } else {
        assert(exprs_v(items@) =~= seq![]);
    }
    let close_tok = p.expect(close);
    (items, close_tok)
}

#[verifier::spinoff_prover]
#[verifier::rlimit(60)]
fn parse_expr_atom(p: &mut Parser) -> (e: SyntaxExpr)
    requires
        old(p).wf(),
    ensures
        steps(*old(p), *final(p)),
        atom_start(peek_kind(old(p).toks(), old(p).pos as int)) ==> old(p).pos < final(p).pos,
        old(p).pos < old(p).tokens@.len() ==> old(p).pos < final(p).pos,
        (e@, final(p).state()) == spec_parse_expr_atom(old(p).toks(), old(p).file, old(p).state()),
    decreases old(p).tokens@.len() - old(p).pos, 2nat,
{
    match p.peek() {
        TokenKind::Number => number_atom(p),
        TokenKind::String => string_atom(p),
        TokenKind::Underscore => {
            let tok = p.bump();
            SyntaxExpr::Hole(tok.span)
        },
        TokenKind::LParen => {
            let lparen = p.tokens[p.pos];
            let (mut items, rparen) = parse_bracketed(p, TokenKind::RParen);
            let span = Span::new(lparen.span.file, lparen.span.start, rparen.span.end);
            proof {
                lemma_exprs_v_len(items@);
            }
            if items.len() == 0 {
                SyntaxExpr::Unit(span)
            } else if items.len() == 1 {
                let ghost iv = exprs_v(items@);
                assert(items@.subrange(0, 0) =~= Seq::<SyntaxExpr>::empty());
                assert(iv == exprs_v(items@.subrange(0, 0)).push(expr_v(items@[0])));
                items.remove(0)
            } else {
                SyntaxExpr::Tuple { elements: items, span }
            }
        },
        TokenKind::LBracket => {
            let lbracket = p.tokens[p.pos];
            let (items, rbracket) = parse_bracketed(p, TokenKind::RBracket);
            SyntaxExpr::Array {
                elements: items,
                span: Span::new(lbracket.span.file, lbracket.span.start, rbracket.span.end),
            }
        },
        TokenKind::LowerIdentifier | TokenKind::UpperIdentifier => {
            let qn = parse_qualified_name(p);
            if qn.is_upper {
                SyntaxExpr::Constructor { name: qn.name, namespace: qn.namespace, span: qn.span }
            } else {
                SyntaxExpr::Var { namespace: qn.namespace, member: qn.name, span: qn.span }
            }
        },
        _ => atom_error(p),
    }
}

fn number_atom(p: &mut Parser) -> (e: SyntaxExpr)
    requires
        old(p).wf(),
        peek_kind(old(p).toks(), old(p).pos as int) == TokenKind::Number,
    ensures
        steps(*old(p), *final(p)),
        old(p).pos < final(p).pos,
        (e@, final(p).state()) == spec_parse_expr_atom(old(p).toks(), old(p).file, old(p).state()),
{
    let tok = p.bump();
    let s = lexeme_to_string(tok.lexeme);
    let n = match parse_u64(s.as_str()) {
        Some(n) => n,
        None => 0,
    };
    SyntaxExpr::Lit { value: Literal::Nat(n), span: tok.span }
}

fn string_atom(p: &mut Parser) -> (e: SyntaxExpr)
    requires
        old(p).wf(),
        peek_kind(old(p).toks(), old(p).pos as int) == TokenKind::String,
    ensures
        steps(*old(p), *final(p)),
        old(p).pos < final(p).pos,
        (e@, final(p).state()) == spec_parse_expr_atom(old(p).toks(), old(p).file, old(p).state()),
{
    let ghost ts = p.toks();
    let ghost s0 = p.state();
    let tok = p.bump();
    let s = lexeme_to_string(tok.lexeme);
    let ghost t = s@;
    let ghost tv = ts[s0.pos];
    let cn = s.as_str().unicode_len();
    proof {
        lemma_encode_len_ge(t);
        if t.len() == 1 {
            lemma_encode_len_single(t);
        }
        if t.len() == 0 {
            assert(t =~= Seq::<char>::empty());
        }
    }
    // the text has two bytes or more exactly where it has two characters or
    // one of two bytes or more
    if cn >= 2 || (cn == 1 && char_len_utf8(s.as_str().get_char(0)) >= 2) {
        let first = s.as_str().get_char(0);
        let last = s.as_str().get_char(cn - 1);
        if char_len_utf8(first) == 1 && char_len_utf8(last) == 1 {
            proof {
                if t.len() == 1 {
                    lemma_encode_len_single(t);
                }
            }
            let inner = s.as_str().substring_char(1, cn - 1);
            let text = String::from_str(inner);
            SyntaxExpr::Lit { value: Literal::Str(text), span: tok.span }
        } else {
            p.string_slice_fault = true;
            SyntaxExpr::Lit { value: Literal::Str(s), span: tok.span }
        }
    } else {
        SyntaxExpr::Lit { value: Literal::Str(s), span: tok.span }
    }
}

fn atom_error(p: &mut Parser) -> (e: SyntaxExpr)
    requires
        old(p).wf(),
        !atom_start(peek_kind(old(p).toks(), old(p).pos as int)),
    ensures
        steps(*old(p), *final(p)),
        (e@, final(p).state()) == spec_parse_expr_atom(old(p).toks(), old(p).file, old(p).state()),
{
    let span = p.current_span();
    let found = if p.pos < p.tokens.len() {
        Some(p.tokens[p.pos].kind)
    } else {
        None
    };
    let err = ParseError {
        kind: if found.is_some() {
            ParseErrorKind::UnexpectedToken
        } else {
            ParseErrorKind::UnexpectedEndOfInput
        },
        span,
        expected: Vec::new(),
        found,
    };
    assert(err.expected@ =~= seq![]);
    p.push_error(err);
    if p.pos < p.tokens.len() {
        p.pos += 1;
    }
    SyntaxExpr::Hole(span)
}

} // verus!

verus! {

// ---------------------------------------------------------------------------
// Declarations, as values.

pub open spec fn span_to(a: Span, end: usize) -> Span {
    Span { file: a.file, start: a.start, end }
}

/// The arguments of an attribute: atoms up to `]` or the end of input.
pub open spec fn spec_attribute_args(ts: Seq<TokenV>, f: usize, s: PState, acc: Seq<ExprV>) -> (Seq<ExprV>, PState)
    decreases ts.len() - s.pos,
{
    if !at(ts, s, TokenKind::RBracket) && !at(ts, s, TokenKind::EndOfFile) {
        let (a, s1) = spec_parse_expr_atom(ts, f, s);
        if s.pos < s1.pos <= ts.len() {
            spec_attribute_args(ts, f, s1, acc.push(a))
        } else {
            (acc.push(a), s1)
        }
    } else {
        (acc, s)
    }
}

/// The attributes `@[name args..]` that come next, appended to `acc`.
pub open spec fn spec_parse_attributes(ts: Seq<TokenV>, f: usize, s: PState, acc: Seq<AttributeV>) -> (Seq<AttributeV>, PState)
    decreases ts.len() - s.pos,
{
    if at(ts, s, TokenKind::At) {
        let at_tok = ts[s.pos];
        let (_, s2) = spec_expect(ts, f, advance(s), TokenKind::LBracket);
        let (name_tok, s3) = spec_expect(ts, f, s2, TokenKind::LowerIdentifier);
        let (args, s4) = spec_attribute_args(ts, f, s3, seq![]);
        let (rb, s5) = spec_expect(ts, f, s4, TokenKind::RBracket);
        let attr = AttributeV { span: join(at_tok.span, rb.span), name: token_text(name_tok.lexeme), args };
        if s.pos < s5.pos <= ts.len() {
            spec_parse_attributes(ts, f, s5, acc.push(attr))
        } else {
            (acc.push(attr), s5)
        }
    } else {
        (acc, s)
    }
}

/// The patterns `p1, p2, ..` of an arm.
pub open spec fn spec_comma_separated_patterns(ts: Seq<TokenV>, f: usize, s: PState) -> (Seq<PatternV>, PState) {
    let (x, s1) = spec_parse_pattern(ts, f, s);
    spec_pattern_more(ts, f, s1, seq![x])
}

/// The arms `| ps => e` that come next, appended to `acc`.
pub open spec fn spec_pattern_match_arms(ts: Seq<TokenV>, f: usize, s: PState, acc: Seq<ArmV>) -> (Seq<ArmV>, PState)
    decreases ts.len() - s.pos,
{
    if at(ts, s, TokenKind::Pipe) {
        let (patterns, s2) = spec_comma_separated_patterns(ts, f, advance(s));
        let (_, s3) = spec_expect(ts, f, s2, TokenKind::FatArrow);
        let (rhs, s4) = spec_parse_expr(ts, f, s3);
        let span = if patterns.len() == 0 {
            expr_span(rhs)
        } else {
            span_to(pattern_span(patterns[0]), expr_span(rhs).end)
        };
        let arm = ArmV { span, patterns, rhs };
        if s.pos < s4.pos <= ts.len() {
            spec_pattern_match_arms(ts, f, s4, acc.push(arm))
        } else {
            (acc.push(arm), s4)
        }
    } else {
        (acc, s)
    }
}

/// Where the body of a definition ends.
pub open spec fn body_end(b: DefBodyV) -> usize {
    match b {
        DefBodyV::Expr(e) => expr_span(e).end,
        DefBodyV::PatternMatch { span, .. } => span.end,
    }
}

pub open spec fn spec_parse_def_body(ts: Seq<TokenV>, f: usize, s: PState) -> (DefBodyV, PState) {
    if at(ts, s, TokenKind::Equal) {
        let (e, s2) = spec_parse_expr(ts, f, advance(s));
        (DefBodyV::Expr(e), s2)
    } else if at(ts, s, TokenKind::Pipe) {
        let (arms, s1) = spec_pattern_match_arms(ts, f, s, seq![]);
        let span = if arms.len() == 0 {
            span_at(ts, f, s1.pos)
        } else {
            span_to(arms[0].span, arms[arms.len() - 1].span.end)
        };
        (DefBodyV::PatternMatch { arms, span }, s1)
    } else {
        let span = span_at(ts, f, s.pos);
        (
            DefBodyV::Expr(ExprV::Hole(span)),
            push_err(s, unexpected_here(ts, f, s, seq![TokenKind::Equal, TokenKind::Pipe])),
        )
    }
}

/// What parsing a `def` or `theorem` at `s` gives.
pub open spec fn spec_parse_def(ts: Seq<TokenV>, f: usize, s: PState) -> (DeclV, PState) {
    let kw = ts[s.pos];
    let (name_tok, s2) = spec_expect(ts, f, advance(s), TokenKind::LowerIdentifier);
    let (binders, s3) = spec_parse_binders(ts, f, s2, seq![]);
    let (_, s4) = spec_expect(ts, f, s3, TokenKind::Colon);
    let (return_type, s5) = spec_parse_expr(ts, f, s4);
    let (body, s6) = spec_parse_def_body(ts, f, s5);
    (
        DeclV::Def {
            span: span_to(kw.span, body_end(body)),
            name: token_text(name_tok.lexeme),
            binders,
            return_type,
            body,
        },
        s6,
    )
}

/// What parsing an `eval` at `s` gives.
pub open spec fn spec_parse_eval(ts: Seq<TokenV>, f: usize, s: PState) -> (DeclV, PState) {
    let kw = ts[s.pos];
    let (expr, s2) = spec_parse_expr(ts, f, advance(s));
    let (semi, s3) = spec_expect(ts, f, s2, TokenKind::Semicolon);
    (DeclV::Eval { span: join(kw.span, semi.span), expr }, s3)
}

/// The fields `name : T` (each with its attributes) of a record or class,
/// appended to `acc`.
pub open spec fn spec_parse_record_fields(ts: Seq<TokenV>, f: usize, s: PState, acc: Seq<FieldV>) -> (Seq<FieldV>, PState)
    decreases ts.len() - s.pos,
{
    if at(ts, s, TokenKind::LowerIdentifier) || at(ts, s, TokenKind::At) {
        let (attributes, s1) = spec_parse_attributes(ts, f, s, seq![]);
        let (name_tok, s2) = spec_expect(ts, f, s1, TokenKind::LowerIdentifier);
        let (_, s3) = spec_expect(ts, f, s2, TokenKind::Colon);
        let (ty, s4) = spec_parse_expr(ts, f, s3);
        let field = FieldV {
            span: span_to(name_tok.span, expr_span(ty).end),
            attributes,
            name: token_text(name_tok.lexeme),
            type_ann: ty,
        };
        if !at(ts, s4, TokenKind::Comma) {
            (acc.push(field), s4)
        } else if s.pos < s4.pos + 1 <= ts.len() {
            spec_parse_record_fields(ts, f, advance(s4), acc.push(field))
        } else {
            (acc.push(field), advance(s4))
        }
    } else {
        (acc, s)
    }
}

pub open spec fn spec_parse_record(ts: Seq<TokenV>, f: usize, s: PState, attributes: Seq<AttributeV>) -> (DeclV, PState) {
    let kw = ts[s.pos];
    let (name_tok, s2) = spec_expect(ts, f, advance(s), TokenKind::UpperIdentifier);
    let (binders, s3) = spec_parse_binders(ts, f, s2, seq![]);
    let (_, s4) = spec_expect(ts, f, s3, TokenKind::LBrace);
    let (fields, s5) = spec_parse_record_fields(ts, f, s4, seq![]);
    let (_, s6) = spec_eat(ts, s5, TokenKind::Comma);
    let (rb, s7) = spec_expect(ts, f, s6, TokenKind::RBrace);
    (
        DeclV::Record {
            span: join(kw.span, rb.span),
            attributes,
            name: token_text(name_tok.lexeme),
            binders,
            fields,
        },
        s7,
    )
}

/// What parsing an `extern` at `s` gives.
pub open spec fn spec_parse_extern(ts: Seq<TokenV>, f: usize, s: PState) -> (DeclV, PState) {
    let kw = ts[s.pos];
    let (name_tok, s2) = spec_expect(ts, f, advance(s), TokenKind::LowerIdentifier);
    let (_, s3) = spec_expect(ts, f, s2, TokenKind::Colon);
    let (type_ann, s4) = spec_parse_expr(ts, f, s3);
    (
        DeclV::Extern {
            span: span_to(kw.span, expr_span(type_ann).end),
            name: token_text(name_tok.lexeme),
            type_ann,
        },
        s4,
    )
}

/// `: T` where a colon comes next.
pub open spec fn spec_optional_type(ts: Seq<TokenV>, f: usize, s: PState) -> (Option<ExprV>, PState) {
    if at(ts, s, TokenKind::Colon) {
        let (e, s1) = spec_parse_expr(ts, f, advance(s));
        (Some(e), s1)
    } else {
        (None, s)
    }
}

/// The constructors of an inductive type, appended to `acc`.
pub open spec fn spec_parse_inductive_constructors(ts: Seq<TokenV>, f: usize, s: PState, acc: Seq<ConstructorV>) -> (Seq<ConstructorV>, PState)
    decreases ts.len() - s.pos,
{
    if at(ts, s, TokenKind::LowerIdentifier) {
        let name_tok = ts[s.pos];
        let (binders, s2) = spec_parse_binders(ts, f, advance(s), seq![]);
        let (type_ann, s3) = spec_optional_type(ts, f, s2);
        let ctor = ConstructorV {
            span: name_tok.span,
            name: token_text(name_tok.lexeme),
            binders,
            type_ann,
        };
        if !at(ts, s3, TokenKind::Comma) {
            (acc.push(ctor), s3)
        } else if s.pos < s3.pos + 1 <= ts.len() {
            spec_parse_inductive_constructors(ts, f, advance(s3), acc.push(ctor))
        } else {
            (acc.push(ctor), advance(s3))
        }
    } else {
        (acc, s)
    }
}

pub open spec fn spec_parse_inductive(ts: Seq<TokenV>, f: usize, s: PState, attributes: Seq<AttributeV>) -> (DeclV, PState) {
    let kw = ts[s.pos];
    let (name_tok, s2) = spec_expect(ts, f, advance(s), TokenKind::UpperIdentifier);
    let (binders, s3) = spec_parse_binders(ts, f, s2, seq![]);
    let (index_type, s4) = spec_optional_type(ts, f, s3);
    let (_, s5) = spec_expect(ts, f, s4, TokenKind::LBrace);
    let (constructors, s6) = spec_parse_inductive_constructors(ts, f, s5, seq![]);
    let (_, s7) = spec_eat(ts, s6, TokenKind::Comma);
    let (rb, s8) = spec_expect(ts, f, s7, TokenKind::RBrace);
    (
        DeclV::Inductive {
            span: join(kw.span, rb.span),
            attributes,
            name: token_text(name_tok.lexeme),
            index_type,
            binders,
            constructors,
        },
        s8,
    )
}

pub open spec fn spec_parse_class(ts: Seq<TokenV>, f: usize, s: PState, attributes: Seq<AttributeV>) -> (DeclV, PState) {
    let kw = ts[s.pos];
    let (name_tok, s2) = spec_expect(ts, f, advance(s), TokenKind::UpperIdentifier);
    let (binders, s3) = spec_parse_binders(ts, f, s2, seq![]);
    let (_, s4) = spec_expect(ts, f, s3, TokenKind::LBrace);
    let (members, s5) = spec_parse_record_fields(ts, f, s4, seq![]);
    let (_, s6) = spec_eat(ts, s5, TokenKind::Comma);
    let (rb, s7) = spec_expect(ts, f, s6, TokenKind::RBrace);
    (
        DeclV::Class {
            attributes,
            span: join(kw.span, rb.span),
            name: token_text(name_tok.lexeme),
            binders,
            members,
        },
        s7,
    )
}

/// The members `name = e` of an instance, appended to `acc`.
pub open spec fn spec_parse_instance_members(ts: Seq<TokenV>, f: usize, s: PState, acc: Seq<MemberV>) -> (Seq<MemberV>, PState)
    decreases ts.len() - s.pos,
{
    if at(ts, s, TokenKind::LowerIdentifier) {
        let name_tok = ts[s.pos];
        let (_, s2) = spec_expect(ts, f, advance(s), TokenKind::Equal);
        let (value, s3) = spec_parse_expr(ts, f, s2);
        let member = MemberV {
            span: span_to(name_tok.span, expr_span(value).end),
            name: token_text(name_tok.lexeme),
            value,
        };
        if !at(ts, s3, TokenKind::Comma) {
            (acc.push(member), s3)
        } else if s.pos < s3.pos + 1 <= ts.len() {
            spec_parse_instance_members(ts, f, advance(s3), acc.push(member))
        } else {
            (acc.push(member), advance(s3))
        }
    } else {
        (acc, s)
    }
}

/// What parsing an `instance` at `s` gives.
pub open spec fn spec_parse_instance(ts: Seq<TokenV>, f: usize, s: PState) -> (DeclV, PState) {
    let kw = ts[s.pos];
    let (name_tok, s2) = spec_expect(ts, f, advance(s), TokenKind::LowerIdentifier);
    let (binders, s3) = spec_parse_binders(ts, f, s2, seq![]);
    let (_, s4) = spec_expect(ts, f, s3, TokenKind::Colon);
    let (type_ann, s5) = spec_parse_expr(ts, f, s4);
    let (_, s6) = spec_expect(ts, f, s5, TokenKind::LBrace);
    let (members, s7) = spec_parse_instance_members(ts, f, s6, seq![]);
    let (_, s8) = spec_eat(ts, s7, TokenKind::Comma);
    let (rb, s9) = spec_expect(ts, f, s8, TokenKind::RBrace);
    (
        DeclV::Instance {
            span: join(kw.span, rb.span),
            name: token_text(name_tok.lexeme),
            binders,
            type_ann,
            members,
        },
        s9,
    )
}

/// What parsing an `alias` at `s` gives.
pub open spec fn spec_parse_alias(ts: Seq<TokenV>, f: usize, s: PState) -> (DeclV, PState) {
    let (name_tok, s2) = spec_expect(ts, f, advance(s), TokenKind::UpperIdentifier);
    let (binders, s3) = spec_parse_binders(ts, f, s2, seq![]);
    let (type_ann, s4) = spec_optional_type(ts, f, s3);
    let (_, s5) = spec_expect(ts, f, s4, TokenKind::Equal);
    let (value, s6) = spec_parse_expr(ts, f, s5);
    (
        DeclV::Alias {
            span: span_to(name_tok.span, expr_span(value).end),
            name: token_text(name_tok.lexeme),
            binders,
            type_ann,
            value,
        },
        s6,
    )
}

/// A declaration with its attributes; nothing where no declaration keyword
/// follows the attributes (an error where there were attributes).
pub open spec fn spec_parse_declaration(ts: Seq<TokenV>, f: usize, s: PState) -> (Option<DeclV>, PState) {
    let (attrs, s1) = spec_parse_attributes(ts, f, s, seq![]);
    let k = peek_kind(ts, s1.pos);
    if k == TokenKind::Def || k == TokenKind::Theorem {
        let (d, s2) = spec_parse_def(ts, f, s1);
        (Some(d), s2)
    } else if k == TokenKind::Eval {
        let (d, s2) = spec_parse_eval(ts, f, s1);
        (Some(d), s2)
    } else if k == TokenKind::Record {
        let (d, s2) = spec_parse_record(ts, f, s1, attrs);
        (Some(d), s2)
    } else if k == TokenKind::Extern {
        let (d, s2) = spec_parse_extern(ts, f, s1);
        (Some(d), s2)
    } else if k == TokenKind::Inductive {
        let (d, s2) = spec_parse_inductive(ts, f, s1, attrs);
        (Some(d), s2)
    } else if k == TokenKind::Class {
        let (d, s2) = spec_parse_class(ts, f, s1, attrs);
        (Some(d), s2)
    } else if k == TokenKind::Instance {
        let (d, s2) = spec_parse_instance(ts, f, s1);
        (Some(d), s2)
    } else if k == TokenKind::Alias {
        let (d, s2) = spec_parse_alias(ts, f, s1);
        (Some(d), s2)
    } else if attrs.len() != 0 {
        (
            None,
            push_err(
                s1,
                ParseErrorV {
                    kind: ParseErrorKind::UnexpectedToken,
                    span: attrs[0].span,
                    expected: seq![],
                    found: Some(k),
                },
            ),
        )
    } else {
        (None, s1)
    }
}

/// The error for a token that starts no declaration.
pub open spec fn stray_token_error(t: TokenV) -> ParseErrorV {
    ParseErrorV { kind: ParseErrorKind::UnexpectedToken, span: t.span, expected: seq![], found: Some(t.kind) }
}

/// The declarations up to the end of input, appended to `acc`; a token that
/// starts none is recorded as an error and skipped.
pub open spec fn spec_parse_declarations(ts: Seq<TokenV>, f: usize, s: PState, acc: Seq<DeclV>) -> (Seq<DeclV>, PState)
    decreases ts.len() - s.pos,
{
    if at(ts, s, TokenKind::EndOfFile) {
        (acc, s)
    } else {
        let (d, s1) = spec_parse_declaration(ts, f, s);
        let (acc1, s2) = match d {
            Some(d) => (acc.push(d), s1),
            None => if !at(ts, s1, TokenKind::EndOfFile) {
                (acc, push_err(advance(s1), stray_token_error(ts[s1.pos])))
            } else {
                (acc, s1)
            },
        };
        if s.pos < s2.pos <= ts.len() {
            spec_parse_declarations(ts, f, s2, acc1)
        } else {
            (acc1, s2)
        }
    }
}

/// What parsing the tokens `ts` of file `f` gives: the declarations, and
/// the final state (the errors recorded, and whether a string literal was
/// met whose quotes cannot be cut off).
pub open spec fn spec_parse_tokens(ts: Seq<TokenV>, f: usize) -> (TreeV, PState) {
    let (decls, s) = spec_parse_declarations(ts, f, PState { pos: 0, errs: seq![], fault: false }, seq![]);
    (TreeV { declarations: decls }, s)
}

} // verus!

verus! {

// ---------------------------------------------------------------------------
// Declarations.

fn parse_attributes(p: &mut Parser) -> (r: Vec<SyntaxAttribute>)
    requires
        old(p).wf(),
    ensures
        steps(*old(p), *final(p)),
        (attributes_v(r@), final(p).state()) == spec_parse_attributes(old(p).toks(), old(p).file, old(p).state(), seq![]),
{
    let ghost ts = p.toks();
    let ghost f = p.file;
    let ghost target = spec_parse_attributes(ts, f, p.state(), seq![]);
    let mut attrs: Vec<SyntaxAttribute> = Vec::new();
    assert(attributes_v(attrs@) =~= seq![]);
    while p.at(TokenKind::At)
        invariant
            p.wf(),
            p.toks() == ts,
            p.file == f,
            steps(*old(p), *p),
            spec_parse_attributes(ts, f, p.state(), attributes_v(attrs@)) == target,
        decreases p.tokens@.len() - p.pos,
    {
        let ghost s0 = p.state();
        let at = p.bump();
        p.expect(TokenKind::LBracket);
        let name_tok = p.expect(TokenKind::LowerIdentifier);
        let mut args: Vec<SyntaxExpr> = Vec::new();
        let ghost args_target = spec_attribute_args(ts, f, p.state(), seq![]);
        assert(exprs_v(args@) =~= seq![]);
        while !p.at(TokenKind::RBracket) && !p.at(TokenKind::EndOfFile)
            invariant
                p.wf(),
                p.toks() == ts,
                p.file == f,
                steps(*old(p), *p),
                s0.pos < p.pos,
                spec_attribute_args(ts, f, p.state(), exprs_v(args@)) == args_target,
            decreases p.tokens@.len() - p.pos,
        {
            let a = parse_expr_atom(p);
            proof {
                lemma_exprs_v_push(args@, a);
            }
            args.push(a);
        }
        let rbracket = p.expect(TokenKind::RBracket);
        let attr = SyntaxAttribute {
            span: Span::new(at.span.file, at.span.start, rbracket.span.end),
            name: lexeme_to_string(name_tok.lexeme),
            args,
        };
        let ghost before = attrs@;
        attrs.push(attr);
        assert(attributes_v(attrs@) =~= attributes_v(before).push(attribute_v(attr)));
    }
    attrs
}

fn parse_comma_separated_patterns(p: &mut Parser) -> (r: Vec<SyntaxPattern>)
    requires
        old(p).wf(),
    ensures
        steps(*old(p), *final(p)),
        (patterns_v(r@), final(p).state()) == spec_comma_separated_patterns(old(p).toks(), old(p).file, old(p).state()),
{
    let ghost ts = p.toks();
    let ghost f = p.file;
    let mut pats: Vec<SyntaxPattern> = Vec::new();
    let x = parse_pattern(p);
    let ghost target = spec_pattern_more(ts, f, p.state(), seq![x@]);
    proof {
        lemma_patterns_v_push(pats@, x);
    }
    pats.push(x);
    assert(patterns_v(pats@) =~= seq![x@]);
    while p.at(TokenKind::Comma)
        invariant
            p.wf(),
            p.toks() == ts,
            p.file == f,
            steps(*old(p), *p),
            spec_pattern_more(ts, f, p.state(), patterns_v(pats@)) == target,
        decreases p.tokens@.len() - p.pos,
    {
        p.bump();
        let y = parse_pattern(p);
        proof {
            lemma_patterns_v_push(pats@, y);
        }
        pats.push(y);
    }
    pats
}

fn parse_pattern_match_arms(p: &mut Parser) -> (r: Vec<PatternMatchArm>)
    requires
        old(p).wf(),
    ensures
        steps(*old(p), *final(p)),
        (r@.map_values(|a: PatternMatchArm| arm_v(a)), final(p).state()) == spec_pattern_match_arms(old(p).toks(), old(p).file, old(p).state(), seq![]),
{
    let ghost ts = p.toks();
    let ghost f = p.file;
    let ghost target = spec_pattern_match_arms(ts, f, p.state(), seq![]);
    let mut arms: Vec<PatternMatchArm> = Vec::new();
    assert(arms@.map_values(|a: PatternMatchArm| arm_v(a)) =~= seq![]);
    while p.at(TokenKind::Pipe)
        invariant
            p.wf(),
            p.toks() == ts,
            p.file == f,
            steps(*old(p), *p),
            spec_pattern_match_arms(ts, f, p.state(), arms@.map_values(|a: PatternMatchArm| arm_v(a))) == target,
        decreases p.tokens@.len() - p.pos,
    {
        p.bump();
        let patterns = parse_comma_separated_patterns(p);
        p.expect(TokenKind::FatArrow);
        let rhs = parse_expr(p);
        proof {
            lemma_patterns_v_len(patterns@);
        }
        let span = if patterns.len() == 0 {
            rhs.span()
        } else {
            proof {
                assert(patterns_v(patterns@)[0] == pattern_v(patterns@[0])) by {
                    lemma_patterns_v_index(patterns@, 0);
                }
            }
            let first = patterns[0].span();
            Span::new(first.file, first.start, rhs.span().end)
        };
        let arm = PatternMatchArm { span, patterns, rhs: Box::new(rhs) };
        let ghost before = arms@;
        arms.push(arm);
        assert(arms@.map_values(|a: PatternMatchArm| arm_v(a)) =~= before.map_values(|a: PatternMatchArm| arm_v(a)).push(arm_v(arm)));
    }
    arms
}

fn body_end_of(body: &DefBody) -> (e: usize)
    ensures
        e == body_end(def_body_v(*body)),
{
    match body {
        DefBody::Expr(e) => e.span().end,
        DefBody::PatternMatch { span, .. } => span.end,
    }
}

fn parse_def_body(p: &mut Parser) -> (r: DefBody)
    requires
        old(p).wf(),
    ensures
        steps(*old(p), *final(p)),
        (def_body_v(r), final(p).state()) == spec_parse_def_body(old(p).toks(), old(p).file, old(p).state()),
{
    if p.at(TokenKind::Equal) {
        p.bump();
        DefBody::Expr(parse_expr(p))
    } else if p.at(TokenKind::Pipe) {
        let arms = parse_pattern_match_arms(p);
        let span = if arms.len() == 0 {
            p.current_span()
        } else {
            Span::new(arms[0].span.file, arms[0].span.start, arms[arms.len() - 1].span.end)
        };
        DefBody::PatternMatch { arms, span }
    } else {
        let span = p.current_span();
        let found = p.peek();
        let err = ParseError {
            kind: ParseErrorKind::UnexpectedToken,
            span,
            expected: vec![TokenKind::Equal, TokenKind::Pipe],
            found: Some(found),
        };
        assert(err.expected@ =~= seq![TokenKind::Equal, TokenKind::Pipe]);
        p.push_error(err);
        DefBody::Expr(SyntaxExpr::Hole(span))
    }
}

fn parse_def(p: &mut Parser) -> (r: SyntaxTreeDeclaration)
    requires
        old(p).wf(),
        old(p).pos < old(p).tokens@.len(),
    ensures
        steps(*old(p), *final(p)),
        old(p).pos < final(p).pos,
        (decl_v(r), final(p).state()) == spec_parse_def(old(p).toks(), old(p).file, old(p).state()),
{
    let kw = p.bump();
    let name_tok = p.expect(TokenKind::LowerIdentifier);
    let binders = parse_binders(p);
    p.expect(TokenKind::Colon);
    let return_type = parse_expr(p);
    let body = parse_def_body(p);
    let span = Span::new(kw.span.file, kw.span.start, body_end_of(&body));
    SyntaxTreeDeclaration::Def { span, name: lexeme_to_string(name_tok.lexeme), binders, return_type, body }
}

fn parse_eval(p: &mut Parser) -> (r: SyntaxTreeDeclaration)
    requires
        old(p).wf(),
        old(p).pos < old(p).tokens@.len(),
    ensures
        steps(*old(p), *final(p)),
        old(p).pos < final(p).pos,
        (decl_v(r), final(p).state()) == spec_parse_eval(old(p).toks(), old(p).file, old(p).state()),
{
    let kw = p.bump();
    let expr = parse_expr(p);
    let semi = p.expect(TokenKind::Semicolon);
    SyntaxTreeDeclaration::Eval { span: Span::new(kw.span.file, kw.span.start, semi.span.end), expr }
}

fn parse_record_fields(p: &mut Parser) -> (r: Vec<RecordField>)
    requires
        old(p).wf(),
    ensures
        steps(*old(p), *final(p)),
        (fields_v(r@), final(p).state()) == spec_parse_record_fields(old(p).toks(), old(p).file, old(p).state(), seq![]),
{
    let ghost ts = p.toks();
    let ghost f = p.file;
    let ghost target = spec_parse_record_fields(ts, f, p.state(), seq![]);
    let mut fields: Vec<RecordField> = Vec::new();
    assert(fields_v(fields@) =~= seq![]);
    while p.at(TokenKind::LowerIdentifier) || p.at(TokenKind::At)
        invariant_except_break
            spec_parse_record_fields(ts, f, p.state(), fields_v(fields@)) == target,
        invariant
            p.wf(),
            p.toks() == ts,
            p.file == f,
            steps(*old(p), *p),
        ensures
            (fields_v(fields@), p.state()) == target,
        decreases p.tokens@.len() - p.pos,
    {
        let ghost s0 = p.state();
        let attrs = parse_attributes(p);
        let name_tok = p.expect(TokenKind::LowerIdentifier);
        p.expect(TokenKind::Colon);
        let ty = parse_expr(p);
        let span = Span::new(name_tok.span.file, name_tok.span.start, ty.span().end);
        let field = RecordField {
            span,
            attributes: attrs,
            name: lexeme_to_string(name_tok.lexeme),
            type_ann: Box::new(ty),
        };
        let ghost before = fields@;
        fields.push(field);
        assert(fields_v(fields@) =~= fields_v(before).push(field_v(field)));
        if !p.at(TokenKind::Comma) {
            break;
        }
        p.bump();
    }
    fields
}

fn parse_record(p: &mut Parser, attributes: Vec<SyntaxAttribute>) -> (r: SyntaxTreeDeclaration)
    requires
        old(p).wf(),
        old(p).pos < old(p).tokens@.len(),
    ensures
        steps(*old(p), *final(p)),
        old(p).pos < final(p).pos,
        (decl_v(r), final(p).state()) == spec_parse_record(old(p).toks(), old(p).file, old(p).state(), attributes_v(attributes@)),
{
    let kw = p.bump();
    let name_tok = p.expect(TokenKind::UpperIdentifier);
    let binders = parse_binders(p);
    p.expect(TokenKind::LBrace);
    let fields = parse_record_fields(p);
    p.eat(TokenKind::Comma);
    let rbrace = p.expect(TokenKind::RBrace);
    SyntaxTreeDeclaration::Record {
        span: Span::new(kw.span.file, kw.span.start, rbrace.span.end),
        attributes,
        name: lexeme_to_string(name_tok.lexeme),
        binders,
        fields,
    }
}

fn parse_extern(p: &mut Parser) -> (r: SyntaxTreeDeclaration)
    requires
        old(p).wf(),
        old(p).pos < old(p).tokens@.len(),
    ensures
        steps(*old(p), *final(p)),
        old(p).pos < final(p).pos,
        (decl_v(r), final(p).state()) == spec_parse_extern(old(p).toks(), old(p).file, old(p).state()),
{
    let kw = p.bump();
    let name_tok = p.expect(TokenKind::LowerIdentifier);
    p.expect(TokenKind::Colon);
    let type_ann = parse_expr(p);
    SyntaxTreeDeclaration::Extern {
        span: Span::new(kw.span.file, kw.span.start, type_ann.span().end),
        name: lexeme_to_string(name_tok.lexeme),
        type_ann,
    }
}

fn parse_optional_type(p: &mut Parser) -> (r: Option<SyntaxExpr>)
    requires
        old(p).wf(),
    ensures
        steps(*old(p), *final(p)),
        (opt_expr_v(r), final(p).state()) == spec_optional_type(old(p).toks(), old(p).file, old(p).state()),
{
    if p.at(TokenKind::Colon) {
        p.bump();
        Some(parse_expr(p))
    } else {
        None
    }
}

fn parse_inductive_constructors(p: &mut Parser) -> (r: Vec<InductiveConstructor>)
    requires
        old(p).wf(),
    ensures
        steps(*old(p), *final(p)),
        (r@.map_values(|c: InductiveConstructor| constructor_v(c)), final(p).state()) == spec_parse_inductive_constructors(old(p).toks(), old(p).file, old(p).state(), seq![]),
{
    let ghost ts = p.toks();
    let ghost f = p.file;
    let ghost target = spec_parse_inductive_constructors(ts, f, p.state(), seq![]);
    let mut ctors: Vec<InductiveConstructor> = Vec::new();
    assert(ctors@.map_values(|c: InductiveConstructor| constructor_v(c)) =~= seq![]);
    while p.at(TokenKind::LowerIdentifier)
        invariant_except_break
            spec_parse_inductive_constructors(ts, f, p.state(), ctors@.map_values(|c: InductiveConstructor| constructor_v(c))) == target,
        invariant
            p.wf(),
            p.toks() == ts,
            p.file == f,
            steps(*old(p), *p),
        ensures
            (ctors@.map_values(|c: InductiveConstructor| constructor_v(c)), p.state()) == target,
        decreases p.tokens@.len() - p.pos,
    {
        let name_tok = p.bump();
        let binders = parse_binders(p);
        let type_ann = parse_optional_type(p);
        let ctor = InductiveConstructor {
            span: name_tok.span,
            name: lexeme_to_string(name_tok.lexeme),
            binders,
            type_ann,
        };
        let ghost before = ctors@;
        ctors.push(ctor);
        assert(ctors@.map_values(|c: InductiveConstructor| constructor_v(c)) =~= before.map_values(|c: InductiveConstructor| constructor_v(c)).push(constructor_v(ctor)));
        if !p.at(TokenKind::Comma) {
            break;
        }
        p.bump();
    }
    ctors
}

fn parse_inductive(p: &mut Parser, attributes: Vec<SyntaxAttribute>) -> (r: SyntaxTreeDeclaration)
    requires
        old(p).wf(),
        old(p).pos < old(p).tokens@.len(),
    ensures
        steps(*old(p), *final(p)),
        old(p).pos < final(p).pos,
        (decl_v(r), final(p).state()) == spec_parse_inductive(old(p).toks(), old(p).file, old(p).state(), attributes_v(attributes@)),
{
    let kw = p.bump();
    let name_tok = p.expect(TokenKind::UpperIdentifier);
    let binders = parse_binders(p);
    let index_type = parse_optional_type(p);
    p.expect(TokenKind::LBrace);
    let constructors = parse_inductive_constructors(p);
    p.eat(TokenKind::Comma);
    let rbrace = p.expect(TokenKind::RBrace);
    SyntaxTreeDeclaration::Inductive {
        span: Span::new(kw.span.file, kw.span.start, rbrace.span.end),
        attributes,
        name: lexeme_to_string(name_tok.lexeme),
        index_type,
        binders,
        constructors,
    }
}

fn parse_class(p: &mut Parser, attributes: Vec<SyntaxAttribute>) -> (r: SyntaxTreeDeclaration)
    requires
        old(p).wf(),
        old(p).pos < old(p).tokens@.len(),
    ensures
        steps(*old(p), *final(p)),
        old(p).pos < final(p).pos,
        (decl_v(r), final(p).state()) == spec_parse_class(old(p).toks(), old(p).file, old(p).state(), attributes_v(attributes@)),
{
    let kw = p.bump();
    let name_tok = p.expect(TokenKind::UpperIdentifier);
    let binders = parse_binders(p);
    p.expect(TokenKind::LBrace);
    let members = parse_record_fields(p);
    p.eat(TokenKind::Comma);
    let rbrace = p.expect(TokenKind::RBrace);
    SyntaxTreeDeclaration::Class {
        attributes,
        span: Span::new(kw.span.file, kw.span.start, rbrace.span.end),
        name: lexeme_to_string(name_tok.lexeme),
        binders,
        members,
    }
}

fn parse_instance_members(p: &mut Parser) -> (r: Vec<InstanceMember>)
    requires
        old(p).wf(),
    ensures
        steps(*old(p), *final(p)),
        (r@.map_values(|m: InstanceMember| member_v(m)), final(p).state()) == spec_parse_instance_members(old(p).toks(), old(p).file, old(p).state(), seq![]),
{
    let ghost ts = p.toks();
    let ghost f = p.file;
    let ghost target = spec_parse_instance_members(ts, f, p.state(), seq![]);
    let mut members: Vec<InstanceMember> = Vec::new();
    assert(members@.map_values(|m: InstanceMember| member_v(m)) =~= seq![]);
    while p.at(TokenKind::LowerIdentifier)
        invariant_except_break
            spec_parse_instance_members(ts, f, p.state(), members@.map_values(|m: InstanceMember| member_v(m))) == target,
        invariant
            p.wf(),
            p.toks() == ts,
            p.file == f,
            steps(*old(p), *p),
        ensures
            (members@.map_values(|m: InstanceMember| member_v(m)), p.state()) == target,
        decreases p.tokens@.len() - p.pos,
    {
        let name_tok = p.bump();
        p.expect(TokenKind::Equal);
        let value = parse_expr(p);
        let member = InstanceMember {
            span: Span::new(name_tok.span.file, name_tok.span.start, value.span().end),
            name: lexeme_to_string(name_tok.lexeme),
            value,
        };
        let ghost before = members@;
        members.push(member);
        assert(members@.map_values(|m: InstanceMember| member_v(m)) =~= before.map_values(|m: InstanceMember| member_v(m)).push(member_v(member)));
        if !p.at(TokenKind::Comma) {
            break;
        }
        p.bump();
    }
    members
}

fn parse_instance(p: &mut Parser) -> (r: SyntaxTreeDeclaration)
    requires
        old(p).wf(),
        old(p).pos < old(p).tokens@.len(),
    ensures
        steps(*old(p), *final(p)),
        old(p).pos < final(p).pos,
        (decl_v(r), final(p).state()) == spec_parse_instance(old(p).toks(), old(p).file, old(p).state()),
{
    let kw = p.bump();
    let name_tok = p.expect(TokenKind::LowerIdentifier);
    let binders = parse_binders(p);
    p.expect(TokenKind::Colon);
    let type_ann = parse_expr(p);
    p.expect(TokenKind::LBrace);
    let members = parse_instance_members(p);
    p.eat(TokenKind::Comma);
    let rbrace = p.expect(TokenKind::RBrace);
    SyntaxTreeDeclaration::Instance {
        span: Span::new(kw.span.file, kw.span.start, rbrace.span.end),
        name: lexeme_to_string(name_tok.lexeme),
        binders,
        type_ann,
        members,
    }
}

fn parse_alias(p: &mut Parser) -> (r: SyntaxTreeDeclaration)
    requires
        old(p).wf(),
        old(p).pos < old(p).tokens@.len(),
    ensures
        steps(*old(p), *final(p)),
        old(p).pos < final(p).pos,
        (decl_v(r), final(p).state()) == spec_parse_alias(old(p).toks(), old(p).file, old(p).state()),
{
    p.bump();
    let name_tok = p.expect(TokenKind::UpperIdentifier);
    let binders = parse_binders(p);
    let type_ann = parse_optional_type(p);
    p.expect(TokenKind::Equal);
    let value = parse_expr(p);
    SyntaxTreeDeclaration::Alias {
        span: Span::new(name_tok.span.file, name_tok.span.start, value.span().end),
        name: lexeme_to_string(name_tok.lexeme),
        binders,
        type_ann,
        value,
    }
}

spec fn opt_decl_v(d: Option<SyntaxTreeDeclaration>) -> Option<DeclV> {
    match d {
        Some(d) => Some(decl_v(d)),
        None => None,
    }
}

fn parse_declaration(p: &mut Parser) -> (r: Option<SyntaxTreeDeclaration>)
    requires
        old(p).wf(),
    ensures
        steps(*old(p), *final(p)),
        r is Some ==> old(p).pos < final(p).pos,
        (opt_decl_v(r), final(p).state()) == spec_parse_declaration(old(p).toks(), old(p).file, old(p).state()),
{
    let attrs = parse_attributes(p);
    match p.peek() {
        TokenKind::Def | TokenKind::Theorem => Some(parse_def(p)),
        TokenKind::Eval => Some(parse_eval(p)),
        TokenKind::Record => Some(parse_record(p, attrs)),
        TokenKind::Extern => Some(parse_extern(p)),
        TokenKind::Inductive => Some(parse_inductive(p, attrs)),
        TokenKind::Class => Some(parse_class(p, attrs)),
        TokenKind::Instance => Some(parse_instance(p)),
        TokenKind::Alias => Some(parse_alias(p)),
        _ => {
            if attrs.len() != 0 {
                let span = attrs[0].span;
                let found = p.peek();
                let err = ParseError {
                    kind: ParseErrorKind::UnexpectedToken,
                    span,
                    expected: Vec::new(),
                    found: Some(found),
                };
                assert(err.expected@ =~= seq![]);
                p.push_error(err);
            }
            None
        },
    }
}

fn parse_source_file(p: &mut Parser) -> (r: SyntaxTree)
    requires
        old(p).wf(),
    ensures
        steps(*old(p), *final(p)),
        (r@.declarations, final(p).state()) == spec_parse_declarations(old(p).toks(), old(p).file, old(p).state(), seq![]),
        peek_kind(old(p).toks(), final(p).pos as int) == TokenKind::EndOfFile,
{
    let ghost ts = p.toks();
    let ghost f = p.file;
    let ghost target = spec_parse_declarations(ts, f, p.state(), seq![]);
    let mut declarations: Vec<SyntaxTreeDeclaration> = Vec::new();
    assert(declarations@.map_values(|d: SyntaxTreeDeclaration| decl_v(d)) =~= seq![]);
    while !p.at(TokenKind::EndOfFile)
        invariant
            p.wf(),
            p.toks() == ts,
            p.file == f,
            steps(*old(p), *p),
            spec_parse_declarations(ts, f, p.state(), declarations@.map_values(|d: SyntaxTreeDeclaration| decl_v(d))) == target,
        decreases p.tokens@.len() - p.pos,
    {
        let ghost s0 = p.state();
        let ghost before = declarations@;
        if let Some(decl) = parse_declaration(p) {
            declarations.push(decl);
            assert(declarations@.map_values(|d: SyntaxTreeDeclaration| decl_v(d)) =~= before.map_values(|d: SyntaxTreeDeclaration| decl_v(d)).push(decl_v(decl)));
        } else {
            if !p.at(TokenKind::EndOfFile) {
                let tok = p.bump();
                let err = ParseError {
                    kind: ParseErrorKind::UnexpectedToken,
                    span: tok.span,
                    expected: Vec::new(),
                    found: Some(tok.kind),
                };
                assert(err.expected@ =~= seq![]);
                p.push_error(err);
            }
        }
    }
    SyntaxTree { declarations }
}

} // verus!

verus! {

// ---------------------------------------------------------------------------
// Entry points.

/// The tokens of a list of (token, span) pairs.
pub open spec fn paired_tokens<'a>(s: Seq<(Token<'a>, Span)>) -> Seq<TokenV> {
    s.map_values(|x: (Token<'a>, Span)| x.0@)
}

/// The file of the first token, or 0 where there is none.
pub open spec fn first_file<'a>(s: Seq<(Token<'a>, Span)>) -> usize {
    if s.len() > 0 {
        s[0].0.span.file
    } else {
        0
    }
}

fn plain_tokens<'a>(tokens: &'a [(Token<'a>, Span)]) -> (v: Vec<Token<'a>>)
    ensures
        toks_v(v@) == paired_tokens(tokens@),
        v@.len() == tokens@.len(),
{
    let mut v: Vec<Token<'a>> = Vec::new();
    let mut i: usize = 0;
    while i < tokens.len()
        invariant
            i <= tokens@.len(),
            v@.len() == i,
            toks_v(v@) =~= paired_tokens(tokens@.subrange(0, i as int)),
        decreases tokens@.len() - i,
    {
        let ghost before = v@;
        v.push(tokens[i].0);
        assert(paired_tokens(tokens@.subrange(0, i + 1)) =~= paired_tokens(tokens@.subrange(0, i as int)).push(tokens@[i as int].0@));
        assert(toks_v(v@) =~= toks_v(before).push(tokens@[i as int].0@));
        i += 1;
    }
    assert(tokens@.subrange(0, tokens@.len() as int) =~= tokens@);
    v
}

/// Runs the parser over the tokens; gives the tree, the parser's errors and
/// whether a string literal was met whose quotes cannot be cut off.
fn run_parser<'a>(tokens: &'a [(Token<'a>, Span)]) -> (r: (SyntaxTree, Vec<ParseError>, bool))
    requires
        tokens@.len() <= i32::MAX,
    ensures
        ({
            let (t, s) = spec_parse_tokens(paired_tokens(tokens@), first_file(tokens@));
            &&& r.0@ == t
            &&& errs_v(r.1@) == s.errs
            &&& r.2 == s.fault
            &&& peek_kind(paired_tokens(tokens@), s.pos) == TokenKind::EndOfFile
            &&& errors_consistent(errs_v(r.1@))
        }),
{
    let plain = plain_tokens(tokens);
    let file = if tokens.len() > 0 {
        tokens[0].0.span.file
    } else {
        0
    };
    let mut p = Parser::new(plain.as_slice(), file);
    let tree = parse_source_file(&mut p);
    (tree, p.errors, p.string_slice_fault)
}

/// Parses a list of tokens (each paired with a span that is not used; the
/// span of the end of input is not used either) into a syntax tree. The
/// parser recovers from every error, so a tree always comes back, together
/// with the errors met, in order; where there were none the list is empty.
/// The parser reads every token up to the end of the input or up to the
/// first end-of-file token. An error names no token found exactly where it
/// reports the end of the input. The input must not hold a string literal, reached by the parser, whose
/// text has two bytes or more and does not start and end with a one-byte
/// character: its quotes could not be cut off.
pub fn parse<'a>(tokens: &'a [(Token<'a>, Span)], _eoi_span: Span) -> (r: (Option<SyntaxTree>, Vec<ParseError>))
    requires
        tokens@.len() <= i32::MAX,
        !spec_parse_tokens(paired_tokens(tokens@), first_file(tokens@)).1.fault,
    ensures
        r.0 is Some,
        r.0->0@ == spec_parse_tokens(paired_tokens(tokens@), first_file(tokens@)).0,
        errs_v(r.1@) == spec_parse_tokens(paired_tokens(tokens@), first_file(tokens@)).1.errs,
        peek_kind(paired_tokens(tokens@), spec_parse_tokens(paired_tokens(tokens@), first_file(tokens@)).1.pos)
            == TokenKind::EndOfFile,
        forall|i: int|
            0 <= i < r.1@.len() ==> (#[trigger] r.1@[i].found is None <==> r.1@[i].kind
                == ParseErrorKind::UnexpectedEndOfInput),
{
    let (tree, errors, _) = run_parser(tokens);
    proof {
        reveal(errors_consistent);
        assert forall|i: int| 0 <= i < errors@.len() implies (#[trigger] errors@[i].found is None
            <==> errors@[i].kind == ParseErrorKind::UnexpectedEndOfInput) by {
            assert(errs_v(errors@)[i] == errors@[i]@);
            assert(error_consistent(errs_v(errors@)[i]));
        }
    }
    if errors.len() == 0 {
        let none: Vec<ParseError> = Vec::new();
        assert(errs_v(none@) =~= errs_v(errors@));
        (Some(tree), none)
    } else {
        (Some(tree), errors)
    }
}

/// As `parse`, where its input is acceptable; `None` where the tokens hold
/// a string literal, reached by the parser, whose quotes cannot be cut off.
pub fn parse_checked<'a>(tokens: &'a [(Token<'a>, Span)], eoi_span: Span) -> (r: Option<(Option<SyntaxTree>, Vec<ParseError>)>)
    requires
        tokens@.len() <= i32::MAX,
    ensures
        r is None <==> spec_parse_tokens(paired_tokens(tokens@), first_file(tokens@)).1.fault,
        r matches Some(res) ==> {
            &&& res.0 is Some
            &&& res.0->0@ == spec_parse_tokens(paired_tokens(tokens@), first_file(tokens@)).0
            &&& errs_v(res.1@) == spec_parse_tokens(paired_tokens(tokens@), first_file(tokens@)).1.errs
            &&& peek_kind(paired_tokens(tokens@), spec_parse_tokens(paired_tokens(tokens@), first_file(tokens@)).1.pos)
                == TokenKind::EndOfFile
            &&& forall|i: int|
                0 <= i < res.1@.len() ==> (#[trigger] res.1@[i].found is None <==> res.1@[i].kind
                    == ParseErrorKind::UnexpectedEndOfInput)
        },
{
    let (_, _, fault) = run_parser(tokens);
    if fault {
        None
    } else {
        Some(parse(tokens, eoi_span))
    }
}

} // verus!
