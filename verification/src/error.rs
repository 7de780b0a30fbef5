//! What a step of the machine reports to the host.

use vstd::prelude::*;
use crate::instruction::Instruction;

verus! {

/// A condition that ends the running program, or refuses a program image.
#[derive(Clone, Copy, Debug, PartialEq, Eq, Structural)]
pub enum Chip8Error {
    /// A call with sixteen return addresses already on the stack.
    StackOverflow,
    /// A return with no return address on the stack.
    StackUnderflow,
    /// An instruction fetch that would read past the end of memory.
    PcOutOfRange,
    /// A data access through I that would reach past the end of memory.
    MemoryOutOfRange,
    /// A program image that does not fit between the program start and the
    /// end of memory.
    RomTooLarge,
}

/// What a step that did not fail has done.
#[derive(Clone, Copy, Debug, PartialEq, Eq, Structural)]
pub enum StepOutcome {
    /// The instruction was executed to completion. For `FX0A` this is the
    /// step that saw the key go down, not the step that fetched it.
    Executed(Instruction),
    /// The word at the program counter is no instruction. The program
    /// counter has moved past it and nothing else has changed.
    InvalidOpcode(u16),
    /// The machine is waiting for a key press: the step fetched `FX0A` and
    /// began the wait, or found the wait in progress and no new key down.
    AwaitingKey,
}

} // verus!
