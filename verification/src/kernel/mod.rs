//! The decision logic of the kernel: key handling of the terminal, the
//! keyboard scancode ring, the descriptor-table entries and the boot
//! information.

pub mod boot;
pub mod descriptors;
pub mod scancode;
pub mod serial;
pub mod tty;
