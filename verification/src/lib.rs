//! The front end of a small dependently typed language (source positions, a
//! lexer, an error-recovering recursive-descent parser, a core term language
//! with a pretty printer and a type synthesiser for literals and applications),
//! together with the pure decision logic of a tiny kernel: the terminal's key
//! handling, the keyboard scancode ring and the interrupt-descriptor layout.

pub mod elaboration;
pub mod kernel;
pub mod log;
pub mod module;
pub mod spine;
pub mod syntax;
