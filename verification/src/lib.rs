//! An interpreter for the CHIP-8 virtual machine.
//!
//! [`Chip8`] holds the machine: 4096 bytes of memory, sixteen registers, a
//! stack of sixteen return addresses, two timers, sixteen keys and a display
//! of 64 by 32 cells. [`Chip8::emulate_cycle`] runs one instruction. What a
//! cycle does is the function [`model::step`] on the machine's view, and
//! [`laws`] holds what follows from it for every program.

use vstd::prelude::*;

pub mod cpu;
pub mod driver;
pub mod error;
pub mod frontend;
pub mod keypad;
pub mod laws;
pub mod model;
pub mod opcode;
pub mod screen;
pub mod sprite;

pub use cpu::Chip8;
pub use error::Chip8Error;
pub use frontend::Frontend;
pub use opcode::Chip8Op;

verus! {

/// The number of cells in a row of the display.
pub const DISPWIDTH: usize = 64;

/// The number of rows of the display.
pub const DISPHEIGHT: usize = 32;

/// The number of cells of the display.
pub const DISPSIZE: usize = DISPWIDTH * DISPHEIGHT;

/// The number of bytes of memory.
pub const MEMSIZE: usize = 4096;

/// The number of return addresses that the stack holds.
pub const STACKSIZE: usize = 16;

/// The number of keys of the keypad.
pub const NUM_KEYS: usize = 16;

/// The number of general registers.
pub const NUM_REGS: usize = 16;

} // verus!
