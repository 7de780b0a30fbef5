//! A CHIP-8 virtual machine: instruction decoding, the register file, memory,
//! the call stack, the 64x32 monochrome display and the two countdown timers.
//!
//! The executable machine is [`Chip8`]. Its behaviour is stated over the
//! mathematical state [`Machine`], the view of a `Chip8`: every operation
//! says which `Machine` it leaves behind.

pub mod alu;
pub mod chip8;
pub mod display;
pub mod dump;
pub mod error;
pub mod execute;
pub mod font;
pub mod instruction;
pub mod laws;
pub mod machine;
mod random;
pub mod timer;

pub use alu::{alu, bcd_digits};
pub use chip8::{Chip8, KeyWait};
pub use error::{Chip8Error, StepOutcome};
pub use font::{fontset, FONT_BASE};
pub use instruction::{decode, AluOp, Instruction};
pub use machine::{Machine, Pending};
pub use timer::ticks_elapsed;
