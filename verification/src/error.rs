//! The ways in which constructing or stepping a machine can fail.

use vstd::prelude::*;
use crate::instruction::Instruction;

verus! {

/// An error raised by the machine. None is recovered from internally: each
/// one is handed to the caller.
#[derive(Clone, Copy, Debug, PartialEq, Eq, Structural)]
pub enum EmulatorError {
    /// The program image, of the given size in bytes, does not fit in memory.
    ProgramTooLarge(usize),
    /// The instruction word at the program counter lies outside memory.
    ProgramCounterOutOfBounds,
    /// The decoded instruction has no defined meaning.
    InvalidInstruction(Instruction),
    /// A return was executed with no call outstanding.
    PoppedEmptyStack,
    /// A call was executed with the call stack already full.
    StackOverflow,
}

} // verus!
