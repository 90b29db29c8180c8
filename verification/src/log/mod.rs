//! Printing of terms.

pub mod pretty;
