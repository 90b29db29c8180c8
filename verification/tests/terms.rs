use raph::elaboration::infer::infer_type;
use raph::elaboration::{Declaration, ElabState, Environment};
use raph::log::pretty::pretty_term;
use raph::module::name::QualifiedName;
use raph::module::prim::{prim_array, prim_fin, prim_nat, prim_string, PRIM_MODULE_ID};
use raph::module::unique::Unique;
use raph::spine::{BinderInfo, Level, Literal, Term};

fn unique(id: usize, name: Option<&str>) -> Unique {
    Unique::new(id, "m".to_string(), name.map(|n| n.to_string()))
}

fn constant(id: usize, name: &str) -> Term {
    Term::Const(QualifiedName::new(unique(id, Some(name))))
}

fn bvar(i: usize) -> Box<Term> {
    Box::new(Term::BVar(i))
}

#[test]
fn prim_names() {
    let cases = [(prim_nat(), 0, "Nat"), (prim_string(), 1, "String"), (prim_fin(), 3, "Fin"), (prim_array(), 4, "Array")];
    for (q, id, name) in cases {
        assert_eq!(q.unique.id, id);
        assert_eq!(q.unique.module, PRIM_MODULE_ID);
        assert_eq!(q.unique.module, "prim");
        assert_eq!(q.unique.display_name.as_deref(), Some(name));
    }
}

#[test]
fn pretty_variables() {
    assert_eq!(pretty_term(&Term::BVar(0)), "b0");
    assert_eq!(pretty_term(&Term::BVar(3)), "b3");
    assert_eq!(pretty_term(&Term::MVar(unique(12, None))), "m12");
    assert_eq!(pretty_term(&Term::FVar(unique(7, Some("x")))), "f7");
    assert_eq!(pretty_term(&Term::BVar(1234567890)), "b1234567890");
}

#[test]
fn pretty_constants_and_applications() {
    assert_eq!(pretty_term(&Term::Const(prim_nat())), "Nat");
    let app = Term::App(Box::new(constant(9, "succ")), bvar(0));
    assert_eq!(pretty_term(&app), "(succ b0)");
    let nested = Term::App(Box::new(app), Box::new(Term::Const(prim_string())));
    assert_eq!(pretty_term(&nested), "((succ b0) String)");
}

#[test]
fn pretty_binders_of_each_kind() {
    let nat = || Box::new(Term::Const(prim_nat()));
    assert_eq!(pretty_term(&Term::Pi(BinderInfo::Explicit, nat(), bvar(0))), "Pi (Nat) -> b0");
    assert_eq!(pretty_term(&Term::Pi(BinderInfo::Implicit, nat(), bvar(0))), "Pi {Nat} -> b0");
    assert_eq!(pretty_term(&Term::Pi(BinderInfo::InstanceImplicit, nat(), bvar(0))), "Pi [Nat] -> b0");
    assert_eq!(pretty_term(&Term::Pi(BinderInfo::StrictImplicit, nat(), bvar(0))), "Pi {{Nat}} -> b0");
    assert_eq!(pretty_term(&Term::Lam(BinderInfo::Explicit, nat(), bvar(0))), "\u{3bb} (Nat). b0");
    assert_eq!(pretty_term(&Term::Sigma(BinderInfo::Implicit, nat(), bvar(1))), "\u{3a3} {Nat} \u{d7} b1");
}

#[test]
fn pretty_let() {
    let t = Term::Let(bvar(0), bvar(1), bvar(2));
    assert_eq!(pretty_term(&t), "(let b0 = b1 in b2)");
}

#[test]
fn pretty_sorts_use_the_debug_form_of_levels() {
    assert_eq!(pretty_term(&Term::Sort(Level::Zero)), "Type(Zero)");
    let l = Level::Succ(Box::new(Level::Max(Box::new(Level::Zero), Box::new(Level::MVar(unique(2, None))))));
    assert_eq!(
        pretty_term(&Term::Sort(l)),
        "Type(Succ(Max(Zero, MVar(Unique { id: 2, module: \"m\", display_name: None }))))"
    );
    let l = Level::IMax(Box::new(Level::Zero), Box::new(Level::MVar(unique(5, Some("u")))));
    assert_eq!(
        pretty_term(&Term::Sort(l)),
        "Type(IMax(Zero, MVar(Unique { id: 5, module: \"m\", display_name: Some(\"u\") })))"
    );
}

#[test]
fn pretty_literals_use_their_debug_form() {
    assert_eq!(pretty_term(&Term::Lit(Literal::Nat(5))), "Nat(5)");
    assert_eq!(pretty_term(&Term::Lit(Literal::Nat(u64::MAX))), "Nat(18446744073709551615)");
    assert_eq!(pretty_term(&Term::Lit(Literal::Str("hi".to_string()))), "Str(\"hi\")");
    assert_eq!(pretty_term(&Term::Lit(Literal::Str("a\"b\n".to_string()))), "Str(\"a\\\"b\\n\")");
}

fn state(decls: Vec<Declaration>) -> ElabState {
    ElabState { env: Environment { decls } }
}

#[test]
fn infer_literals() {
    let mut st = state(vec![]);
    assert_eq!(infer_type(&mut st, Term::Lit(Literal::Nat(3))), Some(Term::Const(prim_nat())));
    assert_eq!(infer_type(&mut st, Term::Lit(Literal::Str("s".to_string()))), Some(Term::Const(prim_string())));
    assert_eq!(st, state(vec![]));
}

#[test]
fn infer_declared_and_undeclared_constants() {
    let f_name = QualifiedName::new(unique(10, Some("f")));
    let f_type = Term::Pi(BinderInfo::Explicit, Box::new(Term::Const(prim_nat())), Box::new(Term::Const(prim_string())));
    let mut st = state(vec![Declaration { name: f_name.clone(), type_: f_type.clone() }]);
    assert_eq!(infer_type(&mut st, Term::Const(f_name.clone())), Some(f_type.clone()));
    assert_eq!(infer_type(&mut st, constant(11, "g")), None);
    // a constant is found by its number, whatever its name
    assert_eq!(infer_type(&mut st, constant(10, "other")), Some(f_type.clone()));
    assert_eq!(st, state(vec![Declaration { name: f_name, type_: f_type }]));
}

#[test]
fn infer_applications() {
    let f_type = Term::Pi(BinderInfo::Explicit, Box::new(Term::Const(prim_nat())), Box::new(Term::Const(prim_string())));
    let g_type = Term::Lam(BinderInfo::Implicit, Box::new(Term::BVar(0)), Box::new(Term::BVar(1)));
    let mut st = state(vec![
        Declaration { name: QualifiedName::new(unique(10, Some("f"))), type_: f_type },
        Declaration { name: QualifiedName::new(unique(11, Some("g"))), type_: g_type },
        Declaration { name: QualifiedName::new(unique(12, Some("n"))), type_: Term::Const(prim_nat()) },
    ]);
    let arg = || Box::new(Term::Lit(Literal::Nat(1)));
    assert_eq!(infer_type(&mut st, Term::App(Box::new(constant(10, "f")), arg())), Some(Term::Const(prim_string())));
    assert_eq!(infer_type(&mut st, Term::App(Box::new(constant(11, "g")), arg())), Some(Term::BVar(1)));
    // a constant whose type is no function cannot be applied
    assert_eq!(infer_type(&mut st, Term::App(Box::new(constant(12, "n")), arg())), None);
    // nor can a literal
    assert_eq!(infer_type(&mut st, Term::App(Box::new(Term::Lit(Literal::Nat(0))), arg())), None);
    // an unknown function gives nothing
    assert_eq!(infer_type(&mut st, Term::App(Box::new(constant(99, "h")), arg())), None);
    // applying twice takes two bodies
    let curried = Term::Pi(
        BinderInfo::Explicit,
        Box::new(Term::Const(prim_nat())),
        Box::new(Term::Pi(BinderInfo::Explicit, Box::new(Term::Const(prim_nat())), Box::new(Term::BVar(7)))),
    );
    let mut st = state(vec![Declaration { name: QualifiedName::new(unique(20, Some("add"))), type_: curried }]);
    let twice = Term::App(Box::new(Term::App(Box::new(constant(20, "add")), arg())), arg());
    assert_eq!(infer_type(&mut st, twice), Some(Term::BVar(7)));
}

#[test]
fn lookup_finds_the_first_declaration_of_a_number() {
    let env = Environment {
        decls: vec![
            Declaration { name: QualifiedName::new(unique(1, Some("a"))), type_: Term::BVar(0) },
            Declaration { name: QualifiedName::new(unique(2, Some("b"))), type_: Term::BVar(1) },
            Declaration { name: QualifiedName::new(unique(2, Some("c"))), type_: Term::BVar(2) },
        ],
    };
    let q = QualifiedName::new(unique(2, None));
    assert_eq!(env.lookup(&q).map(|d| d.type_()), Some(&Term::BVar(1)));
    assert!(env.lookup(&QualifiedName::new(unique(3, None))).is_none());
    assert!(Environment { decls: vec![] }.lookup(&q).is_none());
}

#[test]
fn clones_are_equal() {
    let t = Term::Sigma(
        BinderInfo::StrictImplicit,
        Box::new(Term::Sort(Level::Succ(Box::new(Level::Zero)))),
        Box::new(Term::Let(bvar(0), Box::new(Term::Lit(Literal::Str("x".to_string()))), Box::new(constant(1, "k")))),
    );
    assert_eq!(t.clone(), t);
    let u = unique(4, Some("n"));
    assert_eq!(u.clone(), u);
}
