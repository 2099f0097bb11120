//! Names for the integer types that the machine works with.

use vstd::prelude::*;

verus! {

/// One 16-bit instruction word.
pub type OpCode = u16;

/// A memory address.
pub type Address = u16;

/// The index of a register.
pub type Register = usize;

} // verus!
