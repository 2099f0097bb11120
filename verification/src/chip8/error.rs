//! The ways in which loading or running a program fails.

use vstd::prelude::*;

verus! {

/// A load error or a fatal runtime condition.
#[derive(Clone, Copy, Debug, PartialEq, Eq, Structural)]
pub enum Chip8Error {
    /// No program is in memory.
    NoRom,
    /// The program is larger than the machine accepts.
    RomTooLarge,
    /// The instruction word belongs to no known instruction.
    UnknownOpcode(u16),
    /// A call was made with the call stack full.
    StackOverflow,
    /// A return was made with the call stack empty.
    StackUnderflow,
    /// The program counter does not address two bytes inside memory.
    FetchOutOfBounds,
    /// An instruction addressed a byte outside memory.
    AddressOutOfBounds,
}

impl Chip8Error {
    /// The words for the error.
    pub open spec fn text(self) -> Seq<char> {
        match self {
            Chip8Error::NoRom => "No rom loaded!"@,
            Chip8Error::RomTooLarge => "The rom is too big!"@,
            Chip8Error::UnknownOpcode(_) => "Unknown OPCODE!"@,
            Chip8Error::StackOverflow => "Stack overflow!"@,
            Chip8Error::StackUnderflow => "Stack underflow!"@,
            Chip8Error::FetchOutOfBounds => "The program counter left the memory!"@,
            Chip8Error::AddressOutOfBounds => "An instruction addressed a byte outside the memory!"@,
        }
    }

    /// The words for the error, for a person to read.
    pub fn message(&self) -> (text: &'static str)
        ensures
            text@ == self.text(),
    {
        match self {
            Chip8Error::NoRom => "No rom loaded!",
            Chip8Error::RomTooLarge => "The rom is too big!",
            Chip8Error::UnknownOpcode(_) => "Unknown OPCODE!",
            Chip8Error::StackOverflow => "Stack overflow!",
            Chip8Error::StackUnderflow => "Stack underflow!",
            Chip8Error::FetchOutOfBounds => "The program counter left the memory!",
            Chip8Error::AddressOutOfBounds => "An instruction addressed a byte outside the memory!",
        }
    }
}

} // verus!
