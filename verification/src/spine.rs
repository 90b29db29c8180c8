//! The core term language.

use vstd::prelude::*;
use crate::module::unique::Unique;
use crate::module::name::QualifiedName;

verus! {

/// A term of the core language.
#[derive(Debug, PartialEq, Eq)]
pub enum Term {
    BVar(usize),
    FVar(Unique),
    MVar(Unique),
    Const(QualifiedName),
    App(Box<Term>, Box<Term>),
    Sort(Level),
    Lam(BinderInfo, Box<Term>, Box<Term>),
    Pi(BinderInfo, Box<Term>, Box<Term>),
    Sigma(BinderInfo, Box<Term>, Box<Term>),
    Let(Box<Term>, Box<Term>, Box<Term>),
    Lit(Literal),
}

/// How a binder's argument is passed.
#[derive(Debug, Clone, Copy, PartialEq, Eq, Structural)]
pub enum BinderInfo {
    Explicit,
    Implicit,
    InstanceImplicit,
    StrictImplicit,
}

/// A literal value.
#[derive(Debug, PartialEq, Eq)]
pub enum Literal {
    Nat(u64),
    Str(String),
}

/// A universe level.
#[derive(Debug, PartialEq, Eq)]
pub enum Level {
    Zero,
    Succ(Box<Level>),
    Max(Box<Level>, Box<Level>),
    IMax(Box<Level>, Box<Level>),
    MVar(Unique),
}

/// A literal as a value.
pub enum LiteralV {
    Nat(u64),
    Str(Seq<char>),
}

impl View for Literal {
    type V = LiteralV;

    open spec fn view(&self) -> LiteralV {
        match self {
            Literal::Nat(n) => LiteralV::Nat(*n),
            Literal::Str(s) => LiteralV::Str(s@),
        }
    }
}

impl Clone for Literal {
    fn clone(&self) -> (r: Self)
        ensures
            r == *self,
    {
        match self {
            Literal::Nat(n) => Literal::Nat(*n),
            Literal::Str(s) => Literal::Str(s.clone()),
        }
    }
}

impl Clone for Level {
    fn clone(&self) -> (r: Self)
        ensures
            r == *self,
        decreases self,
    {
        match self {
            Level::Zero => Level::Zero,
            Level::Succ(l) => Level::Succ(Box::new((**l).clone())),
            Level::Max(a, b) => Level::Max(Box::new((**a).clone()), Box::new((**b).clone())),
            Level::IMax(a, b) => Level::IMax(Box::new((**a).clone()), Box::new((**b).clone())),
            Level::MVar(u) => Level::MVar(u.clone()),
        }
    }
}

impl Clone for Term {
    fn clone(&self) -> (r: Self)
        ensures
            r == *self,
        decreases self,
    {
        match self {
            Term::BVar(i) => Term::BVar(*i),
            Term::FVar(u) => Term::FVar(u.clone()),
            Term::MVar(u) => Term::MVar(u.clone()),
            Term::Const(q) => Term::Const(q.clone()),
            Term::App(f, a) => Term::App(Box::new((**f).clone()), Box::new((**a).clone())),
            Term::Sort(l) => Term::Sort(l.clone()),
            Term::Lam(i, t, b) => Term::Lam(*i, Box::new((**t).clone()), Box::new((**b).clone())),
            Term::Pi(i, t, b) => Term::Pi(*i, Box::new((**t).clone()), Box::new((**b).clone())),
            Term::Sigma(i, t, b) => Term::Sigma(*i, Box::new((**t).clone()), Box::new((**b).clone())),
            Term::Let(x, v, b) => Term::Let(
                Box::new((**x).clone()),
                Box::new((**v).clone()),
                Box::new((**b).clone()),
            ),
            Term::Lit(l) => Term::Lit(l.clone()),
        }
    }
}

} // verus!
