//! The concrete syntax tree that the parser builds, and its value view.

use vstd::prelude::*;
use crate::spine::{Literal, LiteralV};
use crate::syntax::Span;

verus! {

/// An infix operator.
#[derive(Debug, Clone, Copy, PartialEq, Eq, Structural)]
pub enum InfixOp {
    Eq,
    Neq,
    Leq,
    Geq,
    Lt,
    Gt,
    Add,
    Sub,
    Mul,
    Div,
}

/// An expression.
#[derive(Debug, PartialEq, Eq)]
pub enum SyntaxExpr {
    Hole(Span),
    Unit(Span),
    Lit { value: Literal, span: Span },
    Var { namespace: Vec<String>, member: String, span: Span },
    Constructor { namespace: Vec<String>, name: String, span: Span },
    App { span: Span, fun: Box<SyntaxExpr>, arg: Box<SyntaxExpr> },
    Proj { span: Span, value: Box<SyntaxExpr>, field: String },
    InfixOp { span: Span, op: InfixOp, lhs: Box<SyntaxExpr>, rhs: Box<SyntaxExpr> },
    Lambda { span: Span, binders: Vec<Binder>, body: Box<SyntaxExpr> },
    Let {
        span: Span,
        name: String,
        type_ann: Option<Box<SyntaxExpr>>,
        value: Box<SyntaxExpr>,
        body: Box<SyntaxExpr>,
    },
    Tuple { elements: Vec<SyntaxExpr>, span: Span },
    Array { elements: Vec<SyntaxExpr>, span: Span },
    Arrow { span: Span, param_type: Box<SyntaxExpr>, return_type: Box<SyntaxExpr> },
    Pi { span: Span, binder: Binder, codomain: Box<SyntaxExpr> },
    Sigma { span: Span, binder: Binder, codomain: Box<SyntaxExpr> },
}

/// A binder `(x : T)`, `{x : T}` or `[x : T]`.
#[derive(Debug, PartialEq, Eq)]
pub enum Binder {
    Explicit(Span, String, Box<SyntaxExpr>),
    Implicit(Span, String, Box<SyntaxExpr>),
    Instance(Span, String, Box<SyntaxExpr>),
}

/// A pattern of a pattern-matching definition.
#[derive(Debug, PartialEq, Eq)]
pub enum SyntaxPattern {
    Wildcard(Span),
    Var(String, Span),
    Tuple { elements: Vec<SyntaxPattern>, span: Span },
    Constructor { namespace: Vec<String>, name: String, args: Vec<SyntaxPattern>, span: Span },
}

/// One arm `| p1, p2 => rhs` of a pattern-matching definition.
#[derive(Debug, PartialEq, Eq)]
pub struct PatternMatchArm {
    pub span: Span,
    pub patterns: Vec<SyntaxPattern>,
    pub rhs: Box<SyntaxExpr>,
}

/// The body of a definition: `= e`, or a list of arms.
#[derive(Debug, PartialEq, Eq)]
pub enum DefBody {
    Expr(SyntaxExpr),
    PatternMatch { arms: Vec<PatternMatchArm>, span: Span },
}

/// An attribute `@[name args..]`.
#[derive(Debug, PartialEq, Eq)]
pub struct SyntaxAttribute {
    pub span: Span,
    pub name: String,
    pub args: Vec<SyntaxExpr>,
}

/// A field of a record or a member of a class.
#[derive(Debug, PartialEq, Eq)]
pub struct RecordField {
    pub span: Span,
    pub attributes: Vec<SyntaxAttribute>,
    pub name: String,
    pub type_ann: Box<SyntaxExpr>,
}

/// A constructor of an inductive type.
#[derive(Debug, PartialEq, Eq)]
pub struct InductiveConstructor {
    pub span: Span,
    pub name: String,
    pub binders: Vec<Binder>,
    pub type_ann: Option<SyntaxExpr>,
}

/// A member `name = value` of an instance.
#[derive(Debug, PartialEq, Eq)]
pub struct InstanceMember {
    pub span: Span,
    pub name: String,
    pub value: SyntaxExpr,
}

/// A top-level declaration.
#[derive(Debug, PartialEq, Eq)]
pub enum SyntaxTreeDeclaration {
    Def { span: Span, name: String, binders: Vec<Binder>, return_type: SyntaxExpr, body: DefBody },
    Eval { span: Span, expr: SyntaxExpr },
    Record {
        span: Span,
        attributes: Vec<SyntaxAttribute>,
        name: String,
        binders: Vec<Binder>,
        fields: Vec<RecordField>,
    },
    Extern { span: Span, name: String, type_ann: SyntaxExpr },
    Inductive {
        span: Span,
        attributes: Vec<SyntaxAttribute>,
        name: String,
        index_type: Option<SyntaxExpr>,
        binders: Vec<Binder>,
        constructors: Vec<InductiveConstructor>,
    },
    Class {
        attributes: Vec<SyntaxAttribute>,
        span: Span,
        name: String,
        binders: Vec<Binder>,
        members: Vec<RecordField>,
    },
    Instance {
        span: Span,
        name: String,
        binders: Vec<Binder>,
        type_ann: SyntaxExpr,
        members: Vec<InstanceMember>,
    },
    Alias {
        span: Span,
        name: String,
        binders: Vec<Binder>,
        type_ann: Option<SyntaxExpr>,
        value: SyntaxExpr,
    },
}

/// A parsed source file.
#[derive(Debug, PartialEq, Eq)]
pub struct SyntaxTree {
    pub declarations: Vec<SyntaxTreeDeclaration>,
}

// ---------------------------------------------------------------------------
// Values: the same trees with sequences in place of vectors and character
// sequences in place of strings.

/// An expression as a value.
pub enum ExprV {
    Hole(Span),
    Unit(Span),
    Lit { value: LiteralV, span: Span },
    Var { namespace: Seq<Seq<char>>, member: Seq<char>, span: Span },
    Constructor { namespace: Seq<Seq<char>>, name: Seq<char>, span: Span },
    App { span: Span, fun: Box<ExprV>, arg: Box<ExprV> },
    Proj { span: Span, value: Box<ExprV>, field: Seq<char> },
    InfixOp { span: Span, op: InfixOp, lhs: Box<ExprV>, rhs: Box<ExprV> },
    Lambda { span: Span, binders: Seq<BinderV>, body: Box<ExprV> },
    Let {
        span: Span,
        name: Seq<char>,
        type_ann: Option<Box<ExprV>>,
        value: Box<ExprV>,
        body: Box<ExprV>,
    },
    Tuple { elements: Seq<ExprV>, span: Span },
    Array { elements: Seq<ExprV>, span: Span },
    Arrow { span: Span, param_type: Box<ExprV>, return_type: Box<ExprV> },
    Pi { span: Span, binder: BinderV, codomain: Box<ExprV> },
    Sigma { span: Span, binder: BinderV, codomain: Box<ExprV> },
}

/// A binder as a value.
pub enum BinderV {
    Explicit(Span, Seq<char>, Box<ExprV>),
    Implicit(Span, Seq<char>, Box<ExprV>),
    Instance(Span, Seq<char>, Box<ExprV>),
}

/// A pattern as a value.
pub enum PatternV {
    Wildcard(Span),
    Var(Seq<char>, Span),
    Tuple { elements: Seq<PatternV>, span: Span },
    Constructor { namespace: Seq<Seq<char>>, name: Seq<char>, args: Seq<PatternV>, span: Span },
}

/// An arm as a value.
pub struct ArmV {
    pub span: Span,
    pub patterns: Seq<PatternV>,
    pub rhs: ExprV,
}

/// A definition body as a value.
pub enum DefBodyV {
    Expr(ExprV),
    PatternMatch { arms: Seq<ArmV>, span: Span },
}

/// An attribute as a value.
pub struct AttributeV {
    pub span: Span,
    pub name: Seq<char>,
    pub args: Seq<ExprV>,
}

/// A field as a value.
pub struct FieldV {
    pub span: Span,
    pub attributes: Seq<AttributeV>,
    pub name: Seq<char>,
    pub type_ann: ExprV,
}

/// A constructor as a value.
pub struct ConstructorV {
    pub span: Span,
    pub name: Seq<char>,
    pub binders: Seq<BinderV>,
    pub type_ann: Option<ExprV>,
}

/// An instance member as a value.
pub struct MemberV {
    pub span: Span,
    pub name: Seq<char>,
    pub value: ExprV,
}

/// A declaration as a value.
pub enum DeclV {
    Def { span: Span, name: Seq<char>, binders: Seq<BinderV>, return_type: ExprV, body: DefBodyV },
    Eval { span: Span, expr: ExprV },
    Record {
        span: Span,
        attributes: Seq<AttributeV>,
        name: Seq<char>,
        binders: Seq<BinderV>,
        fields: Seq<FieldV>,
    },
    Extern { span: Span, name: Seq<char>, type_ann: ExprV },
    Inductive {
        span: Span,
        attributes: Seq<AttributeV>,
        name: Seq<char>,
        index_type: Option<ExprV>,
        binders: Seq<BinderV>,
        constructors: Seq<ConstructorV>,
    },
    Class {
        attributes: Seq<AttributeV>,
        span: Span,
        name: Seq<char>,
        binders: Seq<BinderV>,
        members: Seq<FieldV>,
    },
    Instance {
        span: Span,
        name: Seq<char>,
        binders: Seq<BinderV>,
        type_ann: ExprV,
        members: Seq<MemberV>,
    },
    Alias {
        span: Span,
        name: Seq<char>,
        binders: Seq<BinderV>,
        type_ann: Option<ExprV>,
        value: ExprV,
    },
}

/// A syntax tree as a value.
pub struct TreeV {
    pub declarations: Seq<DeclV>,
}

pub open spec fn pattern_span(p: PatternV) -> Span {
    match p {
        PatternV::Wildcard(s) => s,
        PatternV::Var(_, s) => s,
        PatternV::Tuple { span, .. } => span,
        PatternV::Constructor { span, .. } => span,
    }
}

pub open spec fn expr_span(e: ExprV) -> Span {
    match e {
        ExprV::Hole(s) => s,
        ExprV::Unit(s) => s,
        ExprV::Lit { span, .. } => span,
        ExprV::Var { span, .. } => span,
        ExprV::Constructor { span, .. } => span,
        ExprV::App { span, .. } => span,
        ExprV::Proj { span, .. } => span,
        ExprV::InfixOp { span, .. } => span,
        ExprV::Lambda { span, .. } => span,
        ExprV::Let { span, .. } => span,
        ExprV::Tuple { span, .. } => span,
        ExprV::Array { span, .. } => span,
        ExprV::Arrow { span, .. } => span,
        ExprV::Pi { span, .. } => span,
        ExprV::Sigma { span, .. } => span,
    }
}

pub open spec fn binder_span(b: BinderV) -> Span {
    match b {
        BinderV::Explicit(s, _, _) => s,
        BinderV::Implicit(s, _, _) => s,
        BinderV::Instance(s, _, _) => s,
    }
}

impl SyntaxPattern {
    /// Where the pattern stands in the source.
    pub fn span(&self) -> (s: Span)
        ensures
            s == pattern_span(self@),
    {
        match self {
            SyntaxPattern::Wildcard(s) => *s,
            SyntaxPattern::Var(_, s) => *s,
            SyntaxPattern::Tuple { span, .. } => *span,
            SyntaxPattern::Constructor { span, .. } => *span,
        }
    }
}

impl SyntaxExpr {
    /// Where the expression stands in the source.
    pub fn span(&self) -> (s: Span)
        ensures
            s == expr_span(self@),
    {
        match self {
            SyntaxExpr::Hole(s) => *s,
            SyntaxExpr::Unit(s) => *s,
            SyntaxExpr::Lit { span, .. } => *span,
            SyntaxExpr::Var { span, .. } => *span,
            SyntaxExpr::Constructor { span, .. } => *span,
            SyntaxExpr::App { span, .. } => *span,
            SyntaxExpr::Proj { span, .. } => *span,
            SyntaxExpr::InfixOp { span, .. } => *span,
            SyntaxExpr::Lambda { span, .. } => *span,
            SyntaxExpr::Let { span, .. } => *span,
            SyntaxExpr::Tuple { span, .. } => *span,
            SyntaxExpr::Array { span, .. } => *span,
            SyntaxExpr::Arrow { span, .. } => *span,
            SyntaxExpr::Pi { span, .. } => *span,
            SyntaxExpr::Sigma { span, .. } => *span,
        }
    }
}

impl Binder {
    /// Where the binder stands in the source.
    pub fn span(&self) -> (s: Span)
        ensures
            s == binder_span(self@),
    {
        match self {
            Binder::Explicit(s, _, _) => *s,
            Binder::Implicit(s, _, _) => *s,
            Binder::Instance(s, _, _) => *s,
        }
    }
}

pub open spec fn strings_v(s: Seq<String>) -> Seq<Seq<char>> {
    s.map_values(|x: String| x@)
}

/// The value of an expression.
pub open spec fn expr_v(e: SyntaxExpr) -> ExprV
    decreases e,
{
    match e {
        SyntaxExpr::Hole(s) => ExprV::Hole(s),
        SyntaxExpr::Unit(s) => ExprV::Unit(s),
        SyntaxExpr::Lit { value, span } => ExprV::Lit { value: value@, span },
        SyntaxExpr::Var { namespace, member, span } => ExprV::Var {
            namespace: strings_v(namespace@),
            member: member@,
            span,
        },
        SyntaxExpr::Constructor { namespace, name, span } => ExprV::Constructor {
            namespace: strings_v(namespace@),
            name: name@,
            span,
        },
        SyntaxExpr::App { span, fun, arg } => ExprV::App {
            span,
            fun: Box::new(expr_v(*fun)),
            arg: Box::new(expr_v(*arg)),
        },
        SyntaxExpr::Proj { span, value, field } => ExprV::Proj {
            span,
            value: Box::new(expr_v(*value)),
            field: field@,
        },
        SyntaxExpr::InfixOp { span, op, lhs, rhs } => ExprV::InfixOp {
            span,
            op,
            lhs: Box::new(expr_v(*lhs)),
            rhs: Box::new(expr_v(*rhs)),
        },
        SyntaxExpr::Lambda { span, binders, body } => ExprV::Lambda {
            span,
            binders: binders_v(binders@),
            body: Box::new(expr_v(*body)),
        },
        SyntaxExpr::Let { span, name, type_ann, value, body } => ExprV::Let {
            span,
            name: name@,
            type_ann: match type_ann {
                Some(t) => Some(Box::new(expr_v(*t))),
                None => None,
            },
            value: Box::new(expr_v(*value)),
            body: Box::new(expr_v(*body)),
        },
        SyntaxExpr::Tuple { elements, span } => ExprV::Tuple { elements: exprs_v(elements@), span },
        SyntaxExpr::Array { elements, span } => ExprV::Array { elements: exprs_v(elements@), span },
        SyntaxExpr::Arrow { span, param_type, return_type } => ExprV::Arrow {
            span,
            param_type: Box::new(expr_v(*param_type)),
            return_type: Box::new(expr_v(*return_type)),
        },
        SyntaxExpr::Pi { span, binder, codomain } => ExprV::Pi {
            span,
            binder: binder_v(binder),
            codomain: Box::new(expr_v(*codomain)),
        },
        SyntaxExpr::Sigma { span, binder, codomain } => ExprV::Sigma {
            span,
            binder: binder_v(binder),
            codomain: Box::new(expr_v(*codomain)),
        },
    }
}

pub open spec fn exprs_v(s: Seq<SyntaxExpr>) -> Seq<ExprV>
    decreases s,
{
    if s.len() == 0 {
        seq![]
    } else {
        exprs_v(s.subrange(0, s.len() - 1)).push(expr_v(s[s.len() - 1]))
    }
}

/// The value of a binder.
pub open spec fn binder_v(b: Binder) -> BinderV
    decreases b,
{
    match b {
        Binder::Explicit(s, n, t) => BinderV::Explicit(s, n@, Box::new(expr_v(*t))),
        Binder::Implicit(s, n, t) => BinderV::Implicit(s, n@, Box::new(expr_v(*t))),
        Binder::Instance(s, n, t) => BinderV::Instance(s, n@, Box::new(expr_v(*t))),
    }
}

pub open spec fn binders_v(s: Seq<Binder>) -> Seq<BinderV>
    decreases s,
{
    if s.len() == 0 {
        seq![]
    } else {
        binders_v(s.subrange(0, s.len() - 1)).push(binder_v(s[s.len() - 1]))
    }
}

/// The value of a pattern.
pub open spec fn pattern_v(p: SyntaxPattern) -> PatternV
    decreases p,
{
    match p {
        SyntaxPattern::Wildcard(s) => PatternV::Wildcard(s),
        SyntaxPattern::Var(n, s) => PatternV::Var(n@, s),
        SyntaxPattern::Tuple { elements, span } => PatternV::Tuple {
            elements: patterns_v(elements@),
            span,
        },
        SyntaxPattern::Constructor { namespace, name, args, span } => PatternV::Constructor {
            namespace: strings_v(namespace@),
            name: name@,
            args: patterns_v(args@),
            span,
        },
    }
}

pub open spec fn patterns_v(s: Seq<SyntaxPattern>) -> Seq<PatternV>
    decreases s,
{
    if s.len() == 0 {
        seq![]
    } else {
        patterns_v(s.subrange(0, s.len() - 1)).push(pattern_v(s[s.len() - 1]))
    }
}

pub proof fn lemma_patterns_v_push(s: Seq<SyntaxPattern>, p: SyntaxPattern)
    ensures
        patterns_v(s.push(p)) == patterns_v(s).push(pattern_v(p)),
{
    assert(s.push(p).subrange(0, s.len() as int) =~= s);
}

pub proof fn lemma_patterns_v_len(s: Seq<SyntaxPattern>)
    ensures
        patterns_v(s).len() == s.len(),
    decreases s.len(),
{
    if s.len() > 0 {
        lemma_patterns_v_len(s.subrange(0, s.len() - 1));
    }
}

pub proof fn lemma_patterns_v_index(s: Seq<SyntaxPattern>, i: int)
    requires
        0 <= i < s.len(),
    ensures
        patterns_v(s)[i] == pattern_v(s[i]),
    decreases s.len(),
{
    lemma_patterns_v_len(s.subrange(0, s.len() - 1));
    if i < s.len() - 1 {
        lemma_patterns_v_index(s.subrange(0, s.len() - 1), i);
    }
}

pub proof fn lemma_exprs_v_len(s: Seq<SyntaxExpr>)
    ensures
        exprs_v(s).len() == s.len(),
    decreases s.len(),
{
    if s.len() > 0 {
        lemma_exprs_v_len(s.subrange(0, s.len() - 1));
    }
}

pub proof fn lemma_binders_v_len(s: Seq<Binder>)
    ensures
        binders_v(s).len() == s.len(),
    decreases s.len(),
{
    if s.len() > 0 {
        lemma_binders_v_len(s.subrange(0, s.len() - 1));
    }
}

pub open spec fn arm_v(a: PatternMatchArm) -> ArmV {
    ArmV { span: a.span, patterns: patterns_v(a.patterns@), rhs: expr_v(*a.rhs) }
}

pub open spec fn def_body_v(b: DefBody) -> DefBodyV {
    match b {
        DefBody::Expr(e) => DefBodyV::Expr(expr_v(e)),
        DefBody::PatternMatch { arms, span } => DefBodyV::PatternMatch {
            arms: arms@.map_values(|a: PatternMatchArm| arm_v(a)),
            span,
        },
    }
}

pub open spec fn attribute_v(a: SyntaxAttribute) -> AttributeV {
    AttributeV { span: a.span, name: a.name@, args: exprs_v(a.args@) }
}

pub open spec fn attributes_v(s: Seq<SyntaxAttribute>) -> Seq<AttributeV> {
    s.map_values(|a: SyntaxAttribute| attribute_v(a))
}

pub open spec fn field_v(f: RecordField) -> FieldV {
    FieldV {
        span: f.span,
        attributes: attributes_v(f.attributes@),
        name: f.name@,
        type_ann: expr_v(*f.type_ann),
    }
}

pub open spec fn fields_v(s: Seq<RecordField>) -> Seq<FieldV> {
    s.map_values(|f: RecordField| field_v(f))
}

pub open spec fn opt_expr_v(e: Option<SyntaxExpr>) -> Option<ExprV> {
    match e {
        Some(e) => Some(expr_v(e)),
        None => None,
    }
}

pub open spec fn constructor_v(c: InductiveConstructor) -> ConstructorV {
    ConstructorV {
        span: c.span,
        name: c.name@,
        binders: binders_v(c.binders@),
        type_ann: opt_expr_v(c.type_ann),
    }
}

pub open spec fn member_v(m: InstanceMember) -> MemberV {
    MemberV { span: m.span, name: m.name@, value: expr_v(m.value) }
}

/// The value of a declaration.
pub open spec fn decl_v(d: SyntaxTreeDeclaration) -> DeclV {
    match d {
        SyntaxTreeDeclaration::Def { span, name, binders, return_type, body } => DeclV::Def {
            span,
            name: name@,
            binders: binders_v(binders@),
            return_type: expr_v(return_type),
            body: def_body_v(body),
        },
        SyntaxTreeDeclaration::Eval { span, expr } => DeclV::Eval { span, expr: expr_v(expr) },
        SyntaxTreeDeclaration::Record { span, attributes, name, binders, fields } => DeclV::Record {
            span,
            attributes: attributes_v(attributes@),
            name: name@,
            binders: binders_v(binders@),
            fields: fields_v(fields@),
        },
        SyntaxTreeDeclaration::Extern { span, name, type_ann } => DeclV::Extern {
            span,
            name: name@,
            type_ann: expr_v(type_ann),
        },
        SyntaxTreeDeclaration::Inductive { span, attributes, name, index_type, binders, constructors } =>
            DeclV::Inductive {
            span,
            attributes: attributes_v(attributes@),
            name: name@,
            index_type: opt_expr_v(index_type),
            binders: binders_v(binders@),
            constructors: constructors@.map_values(|c: InductiveConstructor| constructor_v(c)),
        },
        SyntaxTreeDeclaration::Class { attributes, span, name, binders, members } => DeclV::Class {
            attributes: attributes_v(attributes@),
            span,
            name: name@,
            binders: binders_v(binders@),
            members: fields_v(members@),
        },
        SyntaxTreeDeclaration::Instance { span, name, binders, type_ann, members } => DeclV::Instance {
            span,
            name: name@,
            binders: binders_v(binders@),
            type_ann: expr_v(type_ann),
            members: members@.map_values(|m: InstanceMember| member_v(m)),
        },
        SyntaxTreeDeclaration::Alias { span, name, binders, type_ann, value } => DeclV::Alias {
            span,
            name: name@,
            binders: binders_v(binders@),
            type_ann: opt_expr_v(type_ann),
            value: expr_v(value),
        },
    }
}

impl View for SyntaxTree {
    type V = TreeV;

    open spec fn view(&self) -> TreeV {
        TreeV { declarations: self.declarations@.map_values(|d: SyntaxTreeDeclaration| decl_v(d)) }
    }
}

impl View for SyntaxPattern {
    type V = PatternV;

    open spec fn view(&self) -> PatternV {
        pattern_v(*self)
    }
}

impl View for SyntaxExpr {
    type V = ExprV;

    open spec fn view(&self) -> ExprV {
        expr_v(*self)
    }
}

impl View for Binder {
    type V = BinderV;

    open spec fn view(&self) -> BinderV {
        binder_v(*self)
    }
}

pub proof fn lemma_exprs_v_push(s: Seq<SyntaxExpr>, e: SyntaxExpr)
    ensures
        exprs_v(s.push(e)) == exprs_v(s).push(expr_v(e)),
{
    assert(s.push(e).subrange(0, s.len() as int) =~= s);
}

pub proof fn lemma_binders_v_push(s: Seq<Binder>, b: Binder)
    ensures
        binders_v(s.push(b)) == binders_v(s).push(binder_v(b)),
{
    assert(s.push(b).subrange(0, s.len() as int) =~= s);
}

} // verus!

verus! {

// ---------------------------------------------------------------------------
// Copies. Each copy has the same value as what it was made from.

fn clone_strings(v: &Vec<String>) -> (r: Vec<String>)
    ensures
        strings_v(r@) == strings_v(v@),
{
    let mut out: Vec<String> = Vec::new();
    let mut i: usize = 0;
    while i < v.len()
        invariant
            i <= v@.len(),
            out@.len() == i,
            forall|j: int| 0 <= j < i ==> #[trigger] out@[j]@ == v@[j]@,
        decreases v@.len() - i,
    {
        out.push(v[i].clone());
        i += 1;
    }
    assert(strings_v(out@) =~= strings_v(v@));
    out
}

fn clone_expr(e: &SyntaxExpr) -> (r: SyntaxExpr)
    ensures
        r@ == e@,
    decreases e,
{
    match e {
        SyntaxExpr::Hole(s) => SyntaxExpr::Hole(*s),
        SyntaxExpr::Unit(s) => SyntaxExpr::Unit(*s),
        SyntaxExpr::Lit { value, span } => SyntaxExpr::Lit { value: value.clone(), span: *span },
        SyntaxExpr::Var { namespace, member, span } => SyntaxExpr::Var {
            namespace: clone_strings(namespace),
            member: member.clone(),
            span: *span,
        },
        SyntaxExpr::Constructor { namespace, name, span } => SyntaxExpr::Constructor {
            namespace: clone_strings(namespace),
            name: name.clone(),
            span: *span,
        },
        SyntaxExpr::App { span, fun, arg } => SyntaxExpr::App {
            span: *span,
            fun: Box::new(clone_expr(fun)),
            arg: Box::new(clone_expr(arg)),
        },
        SyntaxExpr::Proj { span, value, field } => SyntaxExpr::Proj {
            span: *span,
            value: Box::new(clone_expr(value)),
            field: field.clone(),
        },
        SyntaxExpr::InfixOp { span, op, lhs, rhs } => SyntaxExpr::InfixOp {
            span: *span,
            op: *op,
            lhs: Box::new(clone_expr(lhs)),
            rhs: Box::new(clone_expr(rhs)),
        },
        SyntaxExpr::Lambda { span, binders, body } => SyntaxExpr::Lambda {
            span: *span,
            binders: clone_binders(binders),
            body: Box::new(clone_expr(body)),
        },
        SyntaxExpr::Let { span, name, type_ann, value, body } => {
            let type_ann = match type_ann {
                Some(t) => Some(Box::new(clone_expr(t))),
                None => None,
            };
            SyntaxExpr::Let {
                span: *span,
                name: name.clone(),
                type_ann,
                value: Box::new(clone_expr(value)),
                body: Box::new(clone_expr(body)),
            }
        },
        SyntaxExpr::Tuple { elements, span } => SyntaxExpr::Tuple { elements: clone_exprs(elements), span: *span },
        SyntaxExpr::Array { elements, span } => SyntaxExpr::Array { elements: clone_exprs(elements), span: *span },
        SyntaxExpr::Arrow { span, param_type, return_type } => SyntaxExpr::Arrow {
            span: *span,
            param_type: Box::new(clone_expr(param_type)),
            return_type: Box::new(clone_expr(return_type)),
        },
        SyntaxExpr::Pi { span, binder, codomain } => SyntaxExpr::Pi {
            span: *span,
            binder: clone_binder(binder),
            codomain: Box::new(clone_expr(codomain)),
        },
        SyntaxExpr::Sigma { span, binder, codomain } => SyntaxExpr::Sigma {
            span: *span,
            binder: clone_binder(binder),
            codomain: Box::new(clone_expr(codomain)),
        },
    }
}

fn clone_exprs(v: &Vec<SyntaxExpr>) -> (r: Vec<SyntaxExpr>)
    ensures
        exprs_v(r@) == exprs_v(v@),
    decreases v,
{
    let mut out: Vec<SyntaxExpr> = Vec::new();
    let mut i: usize = 0;
    assert(v@.subrange(0, 0) =~= Seq::<SyntaxExpr>::empty());
    assert(out@ =~= Seq::<SyntaxExpr>::empty());
    while i < v.len()
        invariant
            i <= v@.len(),
            exprs_v(out@) == exprs_v(v@.subrange(0, i as int)),
        decreases v@.len() - i,
    {
        assert(decreases_to!(v => v@[i as int]));
        let x = clone_expr(&v[i]);
        proof {
            lemma_exprs_v_push(out@, x);
            lemma_exprs_v_push(v@.subrange(0, i as int), v@[i as int]);
            assert(v@.subrange(0, i as int).push(v@[i as int]) =~= v@.subrange(0, i + 1));
        }
        out.push(x);
        i += 1;
    }
    assert(v@.subrange(0, v@.len() as int) =~= v@);
    out
}

fn clone_binder(b: &Binder) -> (r: Binder)
    ensures
        r@ == b@,
    decreases b,
{
    match b {
        Binder::Explicit(s, n, t) => Binder::Explicit(*s, n.clone(), Box::new(clone_expr(t))),
        Binder::Implicit(s, n, t) => Binder::Implicit(*s, n.clone(), Box::new(clone_expr(t))),
        Binder::Instance(s, n, t) => Binder::Instance(*s, n.clone(), Box::new(clone_expr(t))),
    }
}

fn clone_binders(v: &Vec<Binder>) -> (r: Vec<Binder>)
    ensures
        binders_v(r@) == binders_v(v@),
    decreases v,
{
    let mut out: Vec<Binder> = Vec::new();
    let mut i: usize = 0;
    assert(v@.subrange(0, 0) =~= Seq::<Binder>::empty());
    assert(out@ =~= Seq::<Binder>::empty());
    while i < v.len()
        invariant
            i <= v@.len(),
            binders_v(out@) == binders_v(v@.subrange(0, i as int)),
        decreases v@.len() - i,
    {
        assert(decreases_to!(v => v@[i as int]));
        let x = clone_binder(&v[i]);
        proof {
            lemma_binders_v_push(out@, x);
            lemma_binders_v_push(v@.subrange(0, i as int), v@[i as int]);
            assert(v@.subrange(0, i as int).push(v@[i as int]) =~= v@.subrange(0, i + 1));
        }
        out.push(x);
        i += 1;
    }
    assert(v@.subrange(0, v@.len() as int) =~= v@);
    out
}

fn clone_pattern(p: &SyntaxPattern) -> (r: SyntaxPattern)
    ensures
        r@ == p@,
    decreases p,
{
    match p {
        SyntaxPattern::Wildcard(s) => SyntaxPattern::Wildcard(*s),
        SyntaxPattern::Var(n, s) => SyntaxPattern::Var(n.clone(), *s),
        SyntaxPattern::Tuple { elements, span } => SyntaxPattern::Tuple {
            elements: clone_patterns(elements),
            span: *span,
        },
        SyntaxPattern::Constructor { namespace, name, args, span } => SyntaxPattern::Constructor {
            namespace: clone_strings(namespace),
            name: name.clone(),
            args: clone_patterns(args),
            span: *span,
        },
    }
}

fn clone_patterns(v: &Vec<SyntaxPattern>) -> (r: Vec<SyntaxPattern>)
    ensures
        patterns_v(r@) == patterns_v(v@),
    decreases v,
{
    let mut out: Vec<SyntaxPattern> = Vec::new();
    let mut i: usize = 0;
    assert(v@.subrange(0, 0) =~= Seq::<SyntaxPattern>::empty());
    assert(out@ =~= Seq::<SyntaxPattern>::empty());
    while i < v.len()
        invariant
            i <= v@.len(),
            patterns_v(out@) == patterns_v(v@.subrange(0, i as int)),
        decreases v@.len() - i,
    {
        assert(decreases_to!(v => v@[i as int]));
        let x = clone_pattern(&v[i]);
        proof {
            lemma_patterns_v_push(out@, x);
            lemma_patterns_v_push(v@.subrange(0, i as int), v@[i as int]);
            assert(v@.subrange(0, i as int).push(v@[i as int]) =~= v@.subrange(0, i + 1));
        }
        out.push(x);
        i += 1;
    }
    assert(v@.subrange(0, v@.len() as int) =~= v@);
    out
}

impl Clone for SyntaxExpr {
    fn clone(&self) -> (r: Self)
        ensures
            r@ == self@,
    {
        clone_expr(self)
    }
}

impl Clone for Binder {
    fn clone(&self) -> (r: Self)
        ensures
            r@ == self@,
    {
        clone_binder(self)
    }
}

impl Clone for SyntaxPattern {
    fn clone(&self) -> (r: Self)
        ensures
            r@ == self@,
    {
        clone_pattern(self)
    }
}

} // verus!

verus! {

impl Clone for PatternMatchArm {
    fn clone(&self) -> (r: Self)
        ensures
            arm_v(r) == arm_v(*self),
    {
        PatternMatchArm {
            span: self.span,
            patterns: clone_patterns(&self.patterns),
            rhs: Box::new(clone_expr(&self.rhs)),
        }
    }
}

fn clone_arms(v: &Vec<PatternMatchArm>) -> (r: Vec<PatternMatchArm>)
    ensures
        r@.map_values(|a: PatternMatchArm| arm_v(a)) == v@.map_values(|a: PatternMatchArm| arm_v(a)),
{
    let mut out: Vec<PatternMatchArm> = Vec::new();
    let mut i: usize = 0;
    while i < v.len()
        invariant
            i <= v@.len(),
            out@.len() == i,
            forall|j: int| 0 <= j < i ==> arm_v(#[trigger] out@[j]) == arm_v(v@[j]),
        decreases v@.len() - i,
    {
        out.push(v[i].clone());
        i += 1;
    }
    assert(out@.map_values(|a: PatternMatchArm| arm_v(a)) =~= v@.map_values(|a: PatternMatchArm| arm_v(a)));
    out
}

impl Clone for DefBody {
    fn clone(&self) -> (r: Self)
        ensures
            def_body_v(r) == def_body_v(*self),
    {
        match self {
            DefBody::Expr(e) => DefBody::Expr(clone_expr(e)),
            DefBody::PatternMatch { arms, span } => DefBody::PatternMatch { arms: clone_arms(arms), span: *span },
        }
    }
}

impl Clone for SyntaxAttribute {
    fn clone(&self) -> (r: Self)
        ensures
            attribute_v(r) == attribute_v(*self),
    {
        SyntaxAttribute { span: self.span, name: self.name.clone(), args: clone_exprs(&self.args) }
    }
}

fn clone_attributes(v: &Vec<SyntaxAttribute>) -> (r: Vec<SyntaxAttribute>)
    ensures
        attributes_v(r@) == attributes_v(v@),
{
    let mut out: Vec<SyntaxAttribute> = Vec::new();
    let mut i: usize = 0;
    while i < v.len()
        invariant
            i <= v@.len(),
            out@.len() == i,
            forall|j: int| 0 <= j < i ==> attribute_v(#[trigger] out@[j]) == attribute_v(v@[j]),
        decreases v@.len() - i,
    {
        out.push(v[i].clone());
        i += 1;
    }
    assert(attributes_v(out@) =~= attributes_v(v@));
    out
}

impl Clone for RecordField {
    fn clone(&self) -> (r: Self)
        ensures
            field_v(r) == field_v(*self),
    {
        RecordField {
            span: self.span,
            attributes: clone_attributes(&self.attributes),
            name: self.name.clone(),
            type_ann: Box::new(clone_expr(&self.type_ann)),
        }
    }
}

fn clone_fields(v: &Vec<RecordField>) -> (r: Vec<RecordField>)
    ensures
        fields_v(r@) == fields_v(v@),
{
    let mut out: Vec<RecordField> = Vec::new();
    let mut i: usize = 0;
    while i < v.len()
        invariant
            i <= v@.len(),
            out@.len() == i,
            forall|j: int| 0 <= j < i ==> field_v(#[trigger] out@[j]) == field_v(v@[j]),
        decreases v@.len() - i,
    {
        out.push(v[i].clone());
        i += 1;
    }
    assert(fields_v(out@) =~= fields_v(v@));
    out
}

fn clone_opt_expr(e: &Option<SyntaxExpr>) -> (r: Option<SyntaxExpr>)
    ensures
        opt_expr_v(r) == opt_expr_v(*e),
{
    match e {
        Some(e) => Some(clone_expr(e)),
        None => None,
    }
}

impl Clone for InductiveConstructor {
    fn clone(&self) -> (r: Self)
        ensures
            constructor_v(r) == constructor_v(*self),
    {
        InductiveConstructor {
            span: self.span,
            name: self.name.clone(),
            binders: clone_binders(&self.binders),
            type_ann: clone_opt_expr(&self.type_ann),
        }
    }
}

fn clone_constructors(v: &Vec<InductiveConstructor>) -> (r: Vec<InductiveConstructor>)
    ensures
        r@.map_values(|c: InductiveConstructor| constructor_v(c)) == v@.map_values(
            |c: InductiveConstructor| constructor_v(c),
        ),
{
    let mut out: Vec<InductiveConstructor> = Vec::new();
    let mut i: usize = 0;
    while i < v.len()
        invariant
            i <= v@.len(),
            out@.len() == i,
            forall|j: int| 0 <= j < i ==> constructor_v(#[trigger] out@[j]) == constructor_v(v@[j]),
        decreases v@.len() - i,
    {
        out.push(v[i].clone());
        i += 1;
    }
    assert(out@.map_values(|c: InductiveConstructor| constructor_v(c)) =~= v@.map_values(
        |c: InductiveConstructor| constructor_v(c),
    ));
    out
}

impl Clone for InstanceMember {
    fn clone(&self) -> (r: Self)
        ensures
            member_v(r) == member_v(*self),
    {
        InstanceMember { span: self.span, name: self.name.clone(), value: clone_expr(&self.value) }
    }
}

fn clone_members(v: &Vec<InstanceMember>) -> (r: Vec<InstanceMember>)
    ensures
        r@.map_values(|m: InstanceMember| member_v(m)) == v@.map_values(|m: InstanceMember| member_v(m)),
{
    let mut out: Vec<InstanceMember> = Vec::new();
    let mut i: usize = 0;
    while i < v.len()
        invariant
            i <= v@.len(),
            out@.len() == i,
            forall|j: int| 0 <= j < i ==> member_v(#[trigger] out@[j]) == member_v(v@[j]),
        decreases v@.len() - i,
    {
        out.push(v[i].clone());
        i += 1;
    }
    assert(out@.map_values(|m: InstanceMember| member_v(m)) =~= v@.map_values(|m: InstanceMember| member_v(m)));
    out
}

impl Clone for SyntaxTreeDeclaration {
    fn clone(&self) -> (r: Self)
        ensures
            decl_v(r) == decl_v(*self),
    {
        match self {
            SyntaxTreeDeclaration::Def { span, name, binders, return_type, body } => SyntaxTreeDeclaration::Def {
                span: *span,
                name: name.clone(),
                binders: clone_binders(binders),
                return_type: clone_expr(return_type),
                body: body.clone(),
            },
            SyntaxTreeDeclaration::Eval { span, expr } => SyntaxTreeDeclaration::Eval {
                span: *span,
                expr: clone_expr(expr),
            },
            SyntaxTreeDeclaration::Record { span, attributes, name, binders, fields } =>
                SyntaxTreeDeclaration::Record {
                span: *span,
                attributes: clone_attributes(attributes),
                name: name.clone(),
                binders: clone_binders(binders),
                fields: clone_fields(fields),
            },
            SyntaxTreeDeclaration::Extern { span, name, type_ann } => SyntaxTreeDeclaration::Extern {
                span: *span,
                name: name.clone(),
                type_ann: clone_expr(type_ann),
            },
            SyntaxTreeDeclaration::Inductive { span, attributes, name, index_type, binders, constructors } =>
                SyntaxTreeDeclaration::Inductive {
                span: *span,
                attributes: clone_attributes(attributes),
                name: name.clone(),
                index_type: clone_opt_expr(index_type),
                binders: clone_binders(binders),
                constructors: clone_constructors(constructors),
            },
            SyntaxTreeDeclaration::Class { attributes, span, name, binders, members } =>
                SyntaxTreeDeclaration::Class {
                attributes: clone_attributes(attributes),
                span: *span,
                name: name.clone(),
                binders: clone_binders(binders),
                members: clone_fields(members),
            },
            SyntaxTreeDeclaration::Instance { span, name, binders, type_ann, members } =>
                SyntaxTreeDeclaration::Instance {
                span: *span,
                name: name.clone(),
                binders: clone_binders(binders),
                type_ann: clone_expr(type_ann),
                members: clone_members(members),
            },
            SyntaxTreeDeclaration::Alias { span, name, binders, type_ann, value } => SyntaxTreeDeclaration::Alias {
                span: *span,
                name: name.clone(),
                binders: clone_binders(binders),
                type_ann: clone_opt_expr(type_ann),
                value: clone_expr(value),
            },
        }
    }
}

impl Clone for SyntaxTree {
    fn clone(&self) -> (r: Self)
        ensures
            r@ == self@,
    {
        let v = &self.declarations;
        let mut out: Vec<SyntaxTreeDeclaration> = Vec::new();
        let mut i: usize = 0;
        while i < v.len()
            invariant
                i <= v@.len(),
                out@.len() == i,
                forall|j: int| 0 <= j < i ==> decl_v(#[trigger] out@[j]) == decl_v(v@[j]),
            decreases v@.len() - i,
        {
            out.push(v[i].clone());
            i += 1;
        }
        let r = SyntaxTree { declarations: out };
        assert(r@.declarations =~= self@.declarations);
        r
    }
}

} // verus!
