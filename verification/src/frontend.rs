//! What the interpreter's driver needs from its surroundings.

use vstd::prelude::*;
use crate::{DISPSIZE, NUM_KEYS};

verus! {

/// A display, a tone and a keypad. The driver of the machine presents the
/// display and sounds the tone through it, and asks it for keys.
pub trait Frontend {
    /// Presents the display: 64 by 32 cells, row by row.
    fn draw_graphics(&mut self, display: [bool; DISPSIZE]);

    /// Sounds the tone.
    fn beep(&self);

    /// Tells which keys were pressed since the last call, without waiting;
    /// `None` asks the driver to stop.
    fn check_keys(&mut self) -> Option<[bool; NUM_KEYS]>;

    /// Waits for a key and returns its index; `None` asks the driver to stop.
    fn get_key(&mut self) -> Option<u8>;
}

} // verus!
