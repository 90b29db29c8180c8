//! Errors of elaboration.

use vstd::prelude::*;
use crate::spine::Term;
use crate::syntax::tree::SyntaxExpr;

verus! {

/// What can go wrong in elaboration.
#[derive(Debug, PartialEq, Eq)]
pub enum ElabError {
    ExpectedRoot,
    UndefinedVariable(String),
    UndefinedConstructor(String),
    TypeMismatch { expected: Term, found: Term },
    UnsupportedSyntax(SyntaxExpr),
    NotAFunction(Term),
}

} // verus!
