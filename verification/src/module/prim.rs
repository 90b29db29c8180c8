//! The names of the primitive types, which the module `prim` provides.

use vstd::prelude::*;
use vstd::string::StringExecFns;
use crate::module::name::QualifiedName;
use crate::module::unique::Unique;

verus! {

/// The name of the module of primitives.
pub const PRIM_MODULE_ID: &'static str = "prim";

/// `q` is the primitive with number `id` shown as `name`, of module `prim`.
pub open spec fn is_prim(q: QualifiedName, id: usize, name: Seq<char>) -> bool {
    &&& q.unique.id == id
    &&& q.unique.module@ == seq!['p', 'r', 'i', 'm']
    &&& q.unique.display_name matches Some(n) && n@ == name
}

fn prim_module() -> (s: String)
    ensures
        s@ == seq!['p', 'r', 'i', 'm'],
{
    let s = String::from_str(PRIM_MODULE_ID);
    proof {
        reveal_strlit("prim");
        assert(s@ =~= seq!['p', 'r', 'i', 'm']);
    }
    s
}

/// The natural numbers.
pub fn prim_nat() -> (q: QualifiedName)
    ensures
        is_prim(q, 0, seq!['N', 'a', 't']),
{
    let name = String::from_str("Nat");
    proof {
        reveal_strlit("Nat");
        assert(name@ =~= seq!['N', 'a', 't']);
    }
    QualifiedName::new(Unique::new(0, prim_module(), Some(name)))
}

/// Strings.
pub fn prim_string() -> (q: QualifiedName)
    ensures
        is_prim(q, 1, seq!['S', 't', 'r', 'i', 'n', 'g']),
{
    let name = String::from_str("String");
    proof {
        reveal_strlit("String");
        assert(name@ =~= seq!['S', 't', 'r', 'i', 'n', 'g']);
    }
    QualifiedName::new(Unique::new(1, prim_module(), Some(name)))
}

/// Finite sets of numbers.
pub fn prim_fin() -> (q: QualifiedName)
    ensures
        is_prim(q, 3, seq!['F', 'i', 'n']),
{
    let name = String::from_str("Fin");
    proof {
        reveal_strlit("Fin");
        assert(name@ =~= seq!['F', 'i', 'n']);
    }
    QualifiedName::new(Unique::new(3, prim_module(), Some(name)))
}

/// Arrays.
pub fn prim_array() -> (q: QualifiedName)
    ensures
        is_prim(q, 4, seq!['A', 'r', 'r', 'a', 'y']),
{
    let name = String::from_str("Array");
    proof {
        reveal_strlit("Array");
        assert(name@ =~= seq!['A', 'r', 'r', 'a', 'y']);
    }
    QualifiedName::new(Unique::new(4, prim_module(), Some(name)))
}

} // verus!
