//! Qualified names.

use vstd::prelude::*;
use crate::module::unique::Unique;

verus! {

/// The name of a global constant.
#[derive(Debug, PartialEq, Eq)]
pub struct QualifiedName {
    pub unique: Unique,
}

impl QualifiedName {
    /// The name with this identifier.
    pub fn new(unique: Unique) -> (q: QualifiedName)
        ensures
            q == (QualifiedName { unique }),
    {
        QualifiedName { unique }
    }
}

impl Clone for QualifiedName {
    fn clone(&self) -> (q: Self)
        ensures
            q == *self,
    {
        QualifiedName { unique: self.unique.clone() }
    }
}

} // verus!
