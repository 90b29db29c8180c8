//! Elaboration: from syntax to core terms.

use vstd::prelude::*;
use crate::module::name::QualifiedName;
use crate::spine::Term;

pub mod err;
pub mod infer;

verus! {

/// A global declaration: a name and its type.
#[derive(Debug, PartialEq, Eq)]
pub struct Declaration {
    pub name: QualifiedName,
    pub type_: Term,
}

impl Declaration {
    /// The declared type.
    pub fn type_(&self) -> (t: &Term)
        ensures
            *t == self.type_,
    {
        &self.type_
    }
}

/// The global declarations in scope.
#[derive(Debug, PartialEq, Eq)]
pub struct Environment {
    pub decls: Vec<Declaration>,
}

/// The index of the first declaration whose name has unique number `id`.
pub open spec fn find_decl(decls: Seq<Declaration>, id: usize) -> Option<int>
    decreases decls.len(),
{
    if decls.len() == 0 {
        None
    } else {
        match find_decl(decls.subrange(0, decls.len() - 1), id) {
            Some(i) => Some(i),
            None => if decls[decls.len() - 1].name.unique.id == id {
                Some(decls.len() - 1)
            } else {
                None
            },
        }
    }
}

/// `find_decl` gives the first index whose name has number `id`, and
/// nothing where no name has it.
pub(crate) proof fn lemma_find_decl_spec(decls: Seq<Declaration>, id: usize)
    ensures
        find_decl(decls, id) matches Some(i) ==> {
            &&& 0 <= i < decls.len()
            &&& decls[i].name.unique.id == id
            &&& forall|j: int| 0 <= j < i ==> #[trigger] decls[j].name.unique.id != id
        },
        find_decl(decls, id) is None ==> forall|j: int|
            0 <= j < decls.len() ==> #[trigger] decls[j].name.unique.id != id,
    decreases decls.len(),
{
    if decls.len() > 0 {
        let last = decls.len() - 1;
        let init = decls.subrange(0, last);
        lemma_find_decl_spec(init, id);
        match find_decl(init, id) {
            Some(i) => {
                assert(find_decl(decls, id) == Some(i));
                assert(decls[i] == init[i]);
                assert forall|j: int| 0 <= j < i implies #[trigger] decls[j].name.unique.id != id by {
                    assert(decls[j] == init[j]);
                }
            },
            None => {
                assert forall|j: int| 0 <= j < last implies #[trigger] decls[j].name.unique.id != id by {
                    assert(decls[j] == init[j]);
                }
            },
        }
    }
}

proof fn lemma_find_decl_step(decls: Seq<Declaration>, id: usize, i: int)
    requires
        0 <= i < decls.len(),
        find_decl(decls.subrange(0, i), id) is None,
    ensures
        find_decl(decls.subrange(0, i + 1), id) == if decls[i].name.unique.id == id {
            Some(i)
        } else {
            None::<int>
        },
{
    assert(decls.subrange(0, i + 1).subrange(0, i) =~= decls.subrange(0, i));
}

proof fn lemma_find_decl_found(decls: Seq<Declaration>, id: usize, j: int)
    requires
        0 <= j <= decls.len(),
        find_decl(decls.subrange(0, j), id) is Some,
    ensures
        find_decl(decls, id) == find_decl(decls.subrange(0, j), id),
        0 <= find_decl(decls, id)->0 < j,
    decreases decls.len() - j,
{
    if j < decls.len() {
        assert(decls.subrange(0, j + 1).subrange(0, j) =~= decls.subrange(0, j));
        lemma_find_decl_found(decls, id, j + 1);
    } else {
        assert(decls.subrange(0, j) =~= decls);
    }
    lemma_find_decl_bound(decls.subrange(0, j), id);
}

proof fn lemma_find_decl_bound(decls: Seq<Declaration>, id: usize)
    ensures
        find_decl(decls, id) matches Some(i) ==> 0 <= i < decls.len(),
    decreases decls.len(),
{
    if decls.len() > 0 {
        lemma_find_decl_bound(decls.subrange(0, decls.len() - 1), id);
    }
}

impl Environment {
    /// The first declaration of the name (names are told apart by their
    /// unique number).
    pub fn lookup(&self, name: &QualifiedName) -> (d: Option<&Declaration>)
        ensures
            match find_decl(self.decls@, name.unique.id) {
                Some(i) => d matches Some(d) && *d == self.decls@[i],
                None => d is None,
            },
    {
        let mut i: usize = 0;
        while i < self.decls.len()
            invariant
                i <= self.decls@.len(),
                find_decl(self.decls@.subrange(0, i as int), name.unique.id) is None,
            decreases self.decls@.len() - i,
        {
            proof {
                lemma_find_decl_step(self.decls@, name.unique.id, i as int);
            }
            if self.decls[i].name.unique.id == name.unique.id {
                proof {
                    lemma_find_decl_found(self.decls@, name.unique.id, i + 1);
                }
                return Some(&self.decls[i]);
            }
            i += 1;
        }
        assert(self.decls@.subrange(0, i as int) =~= self.decls@);
        None
    }
}

/// The state of elaboration.
#[derive(Debug, PartialEq, Eq)]
pub struct ElabState {
    pub env: Environment,
}

} // verus!
