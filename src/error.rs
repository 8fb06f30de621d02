//! The outcomes that stop a load or a cycle.

use vstd::prelude::*;

verus! {

#[derive(Debug, Clone, Copy, PartialEq, Eq, Structural)]
pub enum Chip8Error {
    /// The program, of the given length, does not fit in program space.
    RomTooLarge(usize),
    /// The fetched word is no instruction.
    UnknownInstruction(u16),
    /// A call with every stack slot in use.
    StackOverflow,
    /// A return with an empty stack.
    StackUnderflow,
}

} // verus!
