//! The printed form of terms.

use vstd::prelude::*;
use vstd::string::StringExecFns;
use crate::module::unique::Unique;
use crate::spine::{BinderInfo, Level, Literal, Term};

verus! {

// ---------------------------------------------------------------------------
// Numbers and strings as `Display` and `Debug` print them.

/// The decimal digit `d` as a character.
pub open spec fn digit_char(d: nat) -> char {
    (48 + d) as char
}

/// The decimal form of `n`, without leading zeros (`0` for zero).
pub open spec fn decimal(n: nat) -> Seq<char>
    decreases n,
{
    if n < 10 {
        seq![digit_char(n)]
    } else {
        decimal(n / 10) + seq![digit_char(n % 10)]
    }
}

fn digit_str(d: u64) -> (s: &'static str)
    requires
        d < 10,
    ensures
        s@ == seq![digit_char(d as nat)],
{
    proof {
        reveal_strlit("0");
        reveal_strlit("1");
        reveal_strlit("2");
        reveal_strlit("3");
        reveal_strlit("4");
        reveal_strlit("5");
        reveal_strlit("6");
        reveal_strlit("7");
        reveal_strlit("8");
        reveal_strlit("9");
    }
    let s = if d == 0 {
        "0"
    } else if d == 1 {
        "1"
    } else if d == 2 {
        "2"
    } else if d == 3 {
        "3"
    } else if d == 4 {
        "4"
    } else if d == 5 {
        "5"
    } else if d == 6 {
        "6"
    } else if d == 7 {
        "7"
    } else if d == 8 {
        "8"
    } else {
        "9"
    };
    assert(s@ =~= seq![digit_char(d as nat)]);
    s
}

/// Appends the decimal form of `n` (what `Display` prints for an unsigned
/// integer).
fn push_decimal(out: &mut String, n: u64)
    ensures
        final(out)@ == old(out)@ + decimal(n as nat),
    decreases n,
{
    if n >= 10 {
        push_decimal(out, n / 10);
    }
    let ghost before = out@;
    out.append(digit_str(n % 10));
    proof {
        if n >= 10 {
            assert(out@ =~= old(out)@ + decimal(n as nat));
        } else {
            assert(out@ =~= old(out)@ + decimal(n as nat));
        }
    }
}

/// What `Debug` prints for a string: the text in double quotes, with the
/// characters that need it escaped (`char::escape_debug`).
pub uninterp spec fn debug_quoted(s: Seq<char>) -> Seq<char>;

/// `format!("{:?}", s)` for a string. Its result is the name `debug_quoted`
/// of the characters; the escaping rules of `core` are not restated.
#[verifier::external_body]
fn debug_str(s: &str) -> (r: String)
    ensures
        r@ == debug_quoted(s@),
{
    format!("{:?}", s)
}

// ---------------------------------------------------------------------------
// The printed forms, as values.

/// What `Debug` prints for a unique identifier.
pub open spec fn unique_debug(u: Unique) -> Seq<char> {
    "Unique { id: "@ + decimal(u.id as nat) + ", module: "@ + debug_quoted(u.module@) + ", display_name: "@
        + match u.display_name {
        None => "None"@,
        Some(n) => "Some("@ + debug_quoted(n@) + ")"@,
    } + " }"@
}

/// What `Debug` prints for a level.
pub open spec fn level_debug(l: Level) -> Seq<char>
    decreases l,
{
    match l {
        Level::Zero => "Zero"@,
        Level::Succ(a) => "Succ("@ + level_debug(*a) + ")"@,
        Level::Max(a, b) => "Max("@ + level_debug(*a) + ", "@ + level_debug(*b) + ")"@,
        Level::IMax(a, b) => "IMax("@ + level_debug(*a) + ", "@ + level_debug(*b) + ")"@,
        Level::MVar(u) => "MVar("@ + unique_debug(u) + ")"@,
    }
}

/// What `Debug` prints for a literal.
pub open spec fn literal_debug(l: Literal) -> Seq<char> {
    match l {
        Literal::Nat(n) => "Nat("@ + decimal(n as nat) + ")"@,
        Literal::Str(s) => "Str("@ + debug_quoted(s@) + ")"@,
    }
}

/// A binder's parameter in its brackets.
pub open spec fn surround(info: BinderInfo, s: Seq<char>) -> Seq<char> {
    match info {
        BinderInfo::Explicit => "("@ + s + ")"@,
        BinderInfo::Implicit => "{"@ + s + "}"@,
        BinderInfo::InstanceImplicit => "["@ + s + "]"@,
        BinderInfo::StrictImplicit => "{{"@ + s + "}}"@,
    }
}

/// Every constant in the term has a name to be shown with.
pub open spec fn displayable(t: Term) -> bool
    decreases t,
{
    match t {
        Term::Const(q) => q.unique.display_name is Some,
        Term::App(f, a) => displayable(*f) && displayable(*a),
        Term::Lam(_, p, b) => displayable(*p) && displayable(*b),
        Term::Pi(_, p, b) => displayable(*p) && displayable(*b),
        Term::Sigma(_, p, b) => displayable(*p) && displayable(*b),
        Term::Let(x, v, b) => displayable(*x) && displayable(*v) && displayable(*b),
        _ => true,
    }
}

/// The printed form of a term.
pub open spec fn pretty(t: Term) -> Seq<char>
    decreases t,
{
    match t {
        Term::MVar(u) => "m"@ + decimal(u.id as nat),
        Term::BVar(i) => "b"@ + decimal(i as nat),
        Term::FVar(u) => "f"@ + decimal(u.id as nat),
        Term::Const(q) => match q.unique.display_name {
            Some(n) => n@,
            None => seq![],
        },
        Term::App(f, a) => "("@ + pretty(*f) + " "@ + pretty(*a) + ")"@,
        Term::Pi(i, p, b) => "Pi "@ + surround(i, pretty(*p)) + " -> "@ + pretty(*b),
        Term::Lam(i, p, b) => "\u{3bb} "@ + surround(i, pretty(*p)) + ". "@ + pretty(*b),
        Term::Sigma(i, p, b) => "\u{3a3} "@ + surround(i, pretty(*p)) + " \u{d7} "@ + pretty(*b),
        Term::Sort(l) => "Type("@ + level_debug(l) + ")"@,
        Term::Let(x, v, b) => "(let "@ + pretty(*x) + " = "@ + pretty(*v) + " in "@ + pretty(*b) + ")"@,
        Term::Lit(l) => literal_debug(l),
    }
}

// ---------------------------------------------------------------------------
// Printing.

fn push_unique_debug(out: &mut String, u: &Unique)
    ensures
        final(out)@ == old(out)@ + unique_debug(*u),
{
    out.append("Unique { id: ");
    push_decimal(out, u.id as u64);
    out.append(", module: ");
    let m = debug_str(u.module.as_str());
    out.append(m.as_str());
    out.append(", display_name: ");
    match &u.display_name {
        None => out.append("None"),
        Some(n) => {
            out.append("Some(");
            let d = debug_str(n.as_str());
            out.append(d.as_str());
            out.append(")");
        },
    }
    out.append(" }");
    proof {
        assert(out@ =~= old(out)@ + unique_debug(*u));
    }
}

fn push_level_debug(out: &mut String, l: &Level)
    ensures
        final(out)@ == old(out)@ + level_debug(*l),
    decreases l,
{
    match l {
        Level::Zero => out.append("Zero"),
        Level::Succ(a) => {
            out.append("Succ(");
            push_level_debug(out, a);
            out.append(")");
        },
        Level::Max(a, b) => {
            out.append("Max(");
            push_level_debug(out, a);
            out.append(", ");
            push_level_debug(out, b);
            out.append(")");
        },
        Level::IMax(a, b) => {
            out.append("IMax(");
            push_level_debug(out, a);
            out.append(", ");
            push_level_debug(out, b);
            out.append(")");
        },
        Level::MVar(u) => {
            out.append("MVar(");
            push_unique_debug(out, u);
            out.append(")");
        },
    }
    proof {
        assert(out@ =~= old(out)@ + level_debug(*l));
    }
}

fn push_literal_debug(out: &mut String, l: &Literal)
    ensures
        final(out)@ == old(out)@ + literal_debug(*l),
{
    match l {
        Literal::Nat(n) => {
            out.append("Nat(");
            push_decimal(out, *n);
            out.append(")");
        },
        Literal::Str(s) => {
            out.append("Str(");
            let d = debug_str(s.as_str());
            out.append(d.as_str());
            out.append(")");
        },
    }
    proof {
        assert(out@ =~= old(out)@ + literal_debug(*l));
    }
}

/// Wraps a binder's printed parameter in the brackets of its kind.
fn binder_surrounding(binder_info: &BinderInfo, str: String) -> (r: String)
    ensures
        r@ == surround(*binder_info, str@),
{
    let mut out = String::new();
    match binder_info {
        BinderInfo::Explicit => {
            out.append("(");
            out.append(str.as_str());
            out.append(")");
        },
        BinderInfo::Implicit => {
            out.append("{");
            out.append(str.as_str());
            out.append("}");
        },
        BinderInfo::InstanceImplicit => {
            out.append("[");
            out.append(str.as_str());
            out.append("]");
        },
        BinderInfo::StrictImplicit => {
            out.append("{{");
            out.append(str.as_str());
            out.append("}}");
        },
    }
    assert(out@ =~= surround(*binder_info, str@));
    out
}

/// The printed form of a term: variables as `m`, `b` or `f` with their
/// number, constants by their name, applications in parentheses, binders
/// with their parameter in brackets, sorts and literals as `Debug` prints
/// their level or value.
pub fn pretty_term(term: &Term) -> (s: String)
    requires
        displayable(*term),
    ensures
        s@ == pretty(*term),
    decreases term,
{
    let mut out = String::new();
    match term {
        Term::MVar(unique) => {
            out.append("m");
            push_decimal(&mut out, unique.id as u64);
        },
        Term::BVar(index) => {
            out.append("b");
            push_decimal(&mut out, *index as u64);
        },
        Term::FVar(unique) => {
            out.append("f");
            push_decimal(&mut out, unique.id as u64);
        },
        Term::Const(qname) => {
            let name = match &qname.unique.display_name {
                Some(n) => n,
                None => {
                    assert(false);
                    return out;
                },
            };
            out.append(name.as_str());
        },
        Term::App(func, arg) => {
            out.append("(");
            let f = pretty_term(func);
            out.append(f.as_str());
            out.append(" ");
            let a = pretty_term(arg);
            out.append(a.as_str());
            out.append(")");
        },
        Term::Pi(info, param, body) => {
            let binder_str = binder_surrounding(info, pretty_term(param));
            out.append("Pi ");
            out.append(binder_str.as_str());
            out.append(" -> ");
            let b = pretty_term(body);
            out.append(b.as_str());
        },
        Term::Lam(info, param, body) => {
            let binder_str = binder_surrounding(info, pretty_term(param));
            out.append("\u{3bb} ");
            out.append(binder_str.as_str());
            out.append(". ");
            let b = pretty_term(body);
            out.append(b.as_str());
        },
        Term::Sigma(info, param, body) => {
            let binder_str = binder_surrounding(info, pretty_term(param));
            out.append("\u{3a3} ");
            out.append(binder_str.as_str());
            out.append(" \u{d7} ");
            let b = pretty_term(body);
            out.append(b.as_str());
        },
        Term::Sort(level) => {
            out.append("Type(");
            push_level_debug(&mut out, level);
            out.append(")");
        },
        Term::Let(binding, value, body) => {
            out.append("(let ");
            let x = pretty_term(binding);
            out.append(x.as_str());
            out.append(" = ");
            let v = pretty_term(value);
            out.append(v.as_str());
            out.append(" in ");
            let b = pretty_term(body);
            out.append(b.as_str());
            out.append(")");
        },
        Term::Lit(lit) => {
            push_literal_debug(&mut out, lit);
        },
    }
    assert(out@ =~= pretty(*term));
    out
}

/// Whether every constant in the term has a name to be shown with, which
/// `pretty_term` needs.
pub fn is_displayable(term: &Term) -> (b: bool)
    ensures
        b == displayable(*term),
    decreases term,
{
    match term {
        Term::Const(qname) => qname.unique.display_name.is_some(),
        Term::App(func, arg) => is_displayable(func) && is_displayable(arg),
        Term::Lam(_, param, body) => is_displayable(param) && is_displayable(body),
        Term::Pi(_, param, body) => is_displayable(param) && is_displayable(body),
        Term::Sigma(_, param, body) => is_displayable(param) && is_displayable(body),
        Term::Let(binding, value, body) => is_displayable(binding) && is_displayable(value) && is_displayable(body),
        _ => true,
    }
}

/// The opening bracket of a binder's parameter: `(` explicit, `{`
/// implicit, `[` instance-implicit, `{{` strict-implicit.
pub open spec fn opening_bracket(info: BinderInfo) -> Seq<char> {
    match info {
        BinderInfo::Explicit => seq!['('],
        BinderInfo::Implicit => seq!['{'],
        BinderInfo::InstanceImplicit => seq!['['],
        BinderInfo::StrictImplicit => seq!['{', '{'],
    }
}

/// The closing bracket that goes with `opening_bracket`.
pub open spec fn closing_bracket(info: BinderInfo) -> Seq<char> {
    match info {
        BinderInfo::Explicit => seq![')'],
        BinderInfo::Implicit => seq!['}'],
        BinderInfo::InstanceImplicit => seq![']'],
        BinderInfo::StrictImplicit => seq!['}', '}'],
    }
}

/// A printed binder puts its parameter in the brackets of its own binder
/// info: a lambda prints as `λ`, a space, the bracketed parameter, `. ` and
/// the body; a pi as `Pi `, the bracketed parameter, ` -> ` and the body; a
/// sigma as `Σ `, the bracketed parameter, ` × ` and the body.
pub proof fn law_binder_brackets(info: BinderInfo, param: Term, body: Term)
    ensures
        pretty(Term::Lam(info, Box::new(param), Box::new(body))) == seq!['\u{3bb}', ' '] + opening_bracket(info)
            + pretty(param) + closing_bracket(info) + seq!['.', ' '] + pretty(body),
        pretty(Term::Pi(info, Box::new(param), Box::new(body))) == seq!['P', 'i', ' '] + opening_bracket(info)
            + pretty(param) + closing_bracket(info) + seq![' ', '-', '>', ' '] + pretty(body),
        pretty(Term::Sigma(info, Box::new(param), Box::new(body))) == seq!['\u{3a3}', ' '] + opening_bracket(info)
            + pretty(param) + closing_bracket(info) + seq![' ', '\u{d7}', ' '] + pretty(body),
{
    reveal_strlit("\u{3bb} ");
    reveal_strlit(". ");
    reveal_strlit("Pi ");
    reveal_strlit(" -> ");
    reveal_strlit("\u{3a3} ");
    reveal_strlit(" \u{d7} ");
    reveal_strlit("(");
    reveal_strlit(")");
    reveal_strlit("{");
    reveal_strlit("}");
    reveal_strlit("[");
    reveal_strlit("]");
    reveal_strlit("{{");
    reveal_strlit("}}");
    let p = pretty(param);
    let b = pretty(body);
    let o = opening_bracket(info);
    let c = closing_bracket(info);
    assert(surround(info, p) =~= o + p + c);
    assert(pretty(Term::Lam(info, Box::new(param), Box::new(body))) =~= seq!['\u{3bb}', ' '] + o + p + c + seq![
        '.',
        ' ',
    ] + b);
    assert(pretty(Term::Pi(info, Box::new(param), Box::new(body))) =~= seq!['P', 'i', ' '] + o + p + c + seq![
        ' ',
        '-',
        '>',
        ' ',
    ] + b);
    assert(pretty(Term::Sigma(info, Box::new(param), Box::new(body))) =~= seq!['\u{3a3}', ' '] + o + p + c
        + seq![' ', '\u{d7}', ' '] + b);
}

/// The number that a sequence of decimal digits spells.
pub open spec fn digits_to_nat(cs: Seq<char>) -> nat
    decreases cs.len(),
{
    if cs.len() == 0 {
        0
    } else {
        digits_to_nat(cs.drop_last()) * 10 + ((cs.last() as u32) - 48) as nat
    }
}

/// The decimal form of a number is made of the digits `0`..`9`, starts with
/// a digit other than `0` unless the number is zero, and spells the number.
pub proof fn law_decimal_spells_the_number(n: nat)
    ensures
        decimal(n).len() >= 1,
        forall|k: int| 0 <= k < decimal(n).len() ==> 48 <= (#[trigger] decimal(n)[k] as u32) <= 57,
        n > 0 ==> decimal(n)[0] != '0',
        digits_to_nat(decimal(n)) == n,
    decreases n,
{
    let r = n % 10;
    assert((digit_char(r) as u32) == 48 + r);
    if n < 10 {
        assert(r == n);
        assert(decimal(n).drop_last() =~= Seq::<char>::empty());
        assert(digits_to_nat(decimal(n).drop_last()) == 0);
        assert(decimal(n).last() == digit_char(n));
        assert(digits_to_nat(decimal(n)) == n);
    } else {
        law_decimal_spells_the_number(n / 10);
        let d = decimal(n / 10);
        let cs = decimal(n);
        assert(cs.drop_last() =~= d);
        assert(cs.last() == digit_char(r));
        assert(n == (n / 10) * 10 + r);
        assert(digits_to_nat(cs) == digits_to_nat(d) * 10 + r);
        assert forall|k: int| 0 <= k < cs.len() implies 48 <= (#[trigger] cs[k] as u32) <= 57 by {
            if k < d.len() {
                assert(cs[k] == d[k]);
            }
        }
        assert(cs[0] == d[0]);
    }
}

/// How applications, lets and variables print: an application as its
/// function and argument in parentheses with a space between; a let as
/// `(let x = v in b)`; a bound variable as `b` and its index, a free one as
/// `f` and a metavariable as `m` with their number.
pub proof fn law_term_shapes(f: Term, a: Term, x: Term, v: Term, b: Term, i: usize, u: Unique)
    ensures
        pretty(Term::App(Box::new(f), Box::new(a))) == seq!['('] + pretty(f) + seq![' '] + pretty(a) + seq![')'],
        pretty(Term::Let(Box::new(x), Box::new(v), Box::new(b))) == seq!['(', 'l', 'e', 't', ' '] + pretty(x)
            + seq![' ', '=', ' '] + pretty(v) + seq![' ', 'i', 'n', ' '] + pretty(b) + seq![')'],
        pretty(Term::BVar(i)) == seq!['b'] + decimal(i as nat),
        pretty(Term::FVar(u)) == seq!['f'] + decimal(u.id as nat),
        pretty(Term::MVar(u)) == seq!['m'] + decimal(u.id as nat),
{
    reveal_strlit("(");
    reveal_strlit(")");
    reveal_strlit(" ");
    reveal_strlit("(let ");
    reveal_strlit(" = ");
    reveal_strlit(" in ");
    reveal_strlit("b");
    reveal_strlit("f");
    reveal_strlit("m");
    assert(pretty(Term::App(Box::new(f), Box::new(a))) =~= seq!['('] + pretty(f) + seq![' '] + pretty(a) + seq![
        ')',
    ]);
    assert(pretty(Term::Let(Box::new(x), Box::new(v), Box::new(b))) =~= seq!['(', 'l', 'e', 't', ' '] + pretty(x)
        + seq![' ', '=', ' '] + pretty(v) + seq![' ', 'i', 'n', ' '] + pretty(b) + seq![')']);
}

} // verus!
