//! Unique identifiers.

use vstd::prelude::*;

verus! {

/// An identifier that is unique within a compilation: its number, the
/// module that made it, and the name it is shown with (if any).
#[derive(Debug, PartialEq, Eq)]
pub struct Unique {
    pub id: usize,
    pub module: String,
    pub display_name: Option<String>,
}

impl Unique {
    /// The identifier with this number, module and name.
    pub fn new(id: usize, module: String, display_name: Option<String>) -> (u: Unique)
        ensures
            u == (Unique { id, module, display_name }),
    {
        Unique { id, module, display_name }
    }
}

impl Clone for Unique {
    fn clone(&self) -> (u: Self)
        ensures
            u == *self,
    {
        let display_name = match &self.display_name {
            Some(n) => Some(n.clone()),
            None => None,
        };
        Unique { id: self.id, module: self.module.clone(), display_name }
    }
}

} // verus!
