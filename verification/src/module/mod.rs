//! Names of the module system, and the primitive names.

pub mod name;
pub mod prim;
pub mod unique;
