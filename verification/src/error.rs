//! The ways in which the machine can fail.

use vstd::prelude::*;

verus! {

/// A condition that stops the machine, or that rejects a program image.
#[derive(Debug, PartialEq, Eq, Clone, Copy)]
pub enum Chip8Error {
    /// The word `opcode`, fetched at `address`, matches no instruction pattern.
    DecodeFailure { opcode: u16, address: u16 },
    /// A call was made with sixteen return addresses already on the stack.
    StackOverflow,
    /// A return was made with no return address on the stack.
    StackUnderflow,
    /// An instruction fetch or a memory instruction reached past the end of memory.
    MemoryOutOfRange,
    /// A program image has more bytes than fit between the load address and
    /// the end of memory.
    ImageTooLarge,
}

} // verus!
