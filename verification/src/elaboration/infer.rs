//! Type synthesis.

use vstd::prelude::*;
use crate::elaboration::{find_decl, lemma_find_decl_spec, Declaration, ElabState};
use crate::module::name::QualifiedName;
use crate::module::prim::{is_prim, prim_nat, prim_string};
use crate::spine::{Literal, Term};

verus! {

/// What type synthesis finds for a term.
pub enum Inferred {
    /// No type.
    Nothing,
    /// The primitive `Nat`.
    Nat,
    /// The primitive `String`.
    Str,
    /// This type.
    Type(Term),
}

/// The terms that type synthesis handles: literals, constants, and
/// applications of such terms.
pub open spec fn inferable(t: Term) -> bool
    decreases t,
{
    match t {
        Term::Lit(_) => true,
        Term::Const(_) => true,
        Term::App(f, _) => inferable(*f),
        _ => false,
    }
}

/// The type of a term: `Nat` or `String` for a literal; the declared type
/// for a declared constant; for an application, the body of the function's
/// type where that is a `Pi` or a `Lam`; nothing otherwise.
pub open spec fn inferred(decls: Seq<Declaration>, t: Term) -> Inferred
    decreases t,
{
    match t {
        Term::Lit(Literal::Nat(_)) => Inferred::Nat,
        Term::Lit(Literal::Str(_)) => Inferred::Str,
        Term::Const(name) => match find_decl(decls, name.unique.id) {
            Some(i) => Inferred::Type(decls[i].type_),
            None => Inferred::Nothing,
        },
        Term::App(f, _) => match inferred(decls, *f) {
            Inferred::Type(Term::Pi(_, _, body)) => Inferred::Type(*body),
            Inferred::Type(Term::Lam(_, _, body)) => Inferred::Type(*body),
            _ => Inferred::Nothing,
        },
        _ => Inferred::Nothing,
    }
}

/// `r` is the result of synthesis `i`.
pub open spec fn synthesised(i: Inferred, r: Option<Term>) -> bool {
    match i {
        Inferred::Nothing => r is None,
        Inferred::Nat => r matches Some(Term::Const(q)) && is_prim(q, 0, seq!['N', 'a', 't']),
        Inferred::Str => r matches Some(Term::Const(q)) && is_prim(q, 1, seq!['S', 't', 'r', 'i', 'n', 'g']),
        Inferred::Type(t) => r == Some(t),
    }
}

/// Synthesises the type of a literal, a constant or an application.
pub fn infer_type(state: &mut ElabState, term: Term) -> (r: Option<Term>)
    requires
        inferable(term),
    ensures
        *final(state) == *old(state),
        synthesised(inferred(old(state).env.decls@, term), r),
    decreases term,
{
    match term {
        Term::Lit(Literal::Nat(_)) => Some(Term::Const(prim_nat())),
        Term::Lit(Literal::Str(_)) => Some(Term::Const(prim_string())),
        Term::App(fun, _arg) => {
            let fun_type = infer_type(state, *fun)?;
            match fun_type {
                Term::Pi(_info, _param_ty, body_ty) => Some(*body_ty),
                Term::Lam(_info, _param_ty, body_ty) => Some(*body_ty),
                _ => None,
            }
        },
        Term::Const(name) => {
            let decl = state.env.lookup(&name)?;
            Some(decl.type_().clone())
        },
        _ => {
            assert(false);
            None
        },
    }
}

/// An application has a type exactly when the type of the function is a
/// `Pi` or a `Lam`, and then it is that binder's body: whatever the function
/// is applied to, and for every other type of the function (a `Sigma`, a
/// sort, a constant, ...) the application has none.
pub proof fn law_application_type(decls: Seq<Declaration>, f: Term, a: Term)
    ensures
        ({
            let tf = inferred(decls, f);
            let ta = inferred(decls, Term::App(Box::new(f), Box::new(a)));
            &&& tf matches Inferred::Type(Term::Pi(_, _, b)) ==> ta == Inferred::Type(*b)
            &&& tf matches Inferred::Type(Term::Lam(_, _, b)) ==> ta == Inferred::Type(*b)
            &&& !(tf matches Inferred::Type(Term::Pi(_, _, _))) && !(tf matches Inferred::Type(Term::Lam(_, _, _)))
                ==> ta == Inferred::Nothing
        }),
{
}

/// `r` is the constant of module `prim` with number `id` shown as `name`.
pub open spec fn names_primitive(r: Option<Term>, id: usize, name: Seq<char>) -> bool {
    match r {
        Some(Term::Const(c)) => {
            &&& c.unique.id == id
            &&& c.unique.module@ == seq!['p', 'r', 'i', 'm']
            &&& match c.unique.display_name {
                Some(d) => d@ == name,
                None => false,
            }
        },
        _ => false,
    }
}

/// A natural-number literal has the primitive type `Nat` (number 0 of
/// module `prim`), a string literal the primitive type `String` (number 1),
/// whatever the declarations; a constant has the type of the first
/// declaration with its number, and none where no declaration has it.
pub proof fn law_literal_and_constant_types(decls: Seq<Declaration>, n: u64, text: String, q: QualifiedName, r: Option<Term>)
    ensures
        synthesised(inferred(decls, Term::Lit(Literal::Nat(n))), r) ==> names_primitive(r, 0, seq!['N', 'a', 't']),
        synthesised(inferred(decls, Term::Lit(Literal::Str(text))), r) ==> names_primitive(
            r,
            1,
            seq!['S', 't', 'r', 'i', 'n', 'g'],
        ),
        synthesised(inferred(decls, Term::Const(q)), r) ==> ((forall|i: int|
            0 <= i < decls.len() ==> #[trigger] decls[i].name.unique.id != q.unique.id) ==> r is None),
        synthesised(inferred(decls, Term::Const(q)), r) ==> (forall|i: int|
            0 <= i < decls.len() && decls[i].name.unique.id == q.unique.id && (forall|j: int|
                0 <= j < i ==> #[trigger] decls[j].name.unique.id != q.unique.id) ==> r == Some(
                #[trigger] decls[i].type_,
            )),
{
    lemma_find_decl_spec(decls, q.unique.id);
}

} // verus!
