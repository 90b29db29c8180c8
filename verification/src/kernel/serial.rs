//! The serial port.

use vstd::prelude::*;

verus! {

/// The first serial port (COM1), as a sink for text.
pub struct Serial;

} // verus!
