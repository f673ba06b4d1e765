//! One turn of the loop that drives the machine.
//!
//! The driver runs a cycle, serves a pending wait for a key, sounds the tone
//! and presents the display; then it pauses, and collects the keys pressed
//! meanwhile. The two halves of a turn are [`run_turn`] and [`poll_keys`]; the
//! pause between them, and the loop around them, belong to the caller.

use vstd::prelude::*;
use crate::cpu::Chip8;
use crate::error::Chip8Error;
use crate::frontend::Frontend;
use crate::model::{key_given, keys_merged, step, step_fault, Machine};

verus! {

/// Whether a turn that starts in `s`, and whose cycle draws `random_byte`,
/// may end in `end` with the result `res`.
///
/// The turn ends in the machine that the cycle leaves, and goes on unless the
/// cycle failed. The one exception is a cycle that succeeds and leaves the
/// program waiting for a key: the turn then either goes on with some key
/// delivered, or stops with none.
pub open spec fn turn_ends(
    s: Machine,
    random_byte: u8,
    end: Machine,
    res: Result<bool, Chip8Error>,
) -> bool {
    let t = step(s, random_byte);
    match step_fault(s) {
        Some(e) => end == t && res == Err::<bool, Chip8Error>(e),
        None => if t.wait_for_key_flag {
            ||| res == Ok::<bool, Chip8Error>(false) && end == t
            ||| res == Ok::<bool, Chip8Error>(true) && exists|key: u8|
                end == #[trigger] key_given(t, key)
        } else {
            res == Ok::<bool, Chip8Error>(true) && end == t
        },
    }
}

/// Takes the frontend's answer to a wait for a key: delivers the key and
/// tells the driver to go on, or, without a key, changes nothing and tells it
/// to stop.
pub fn accept_key(chip8: &mut Chip8, key: Option<u8>) -> (goes_on: bool)
    ensures
        key matches Some(k) ==> goes_on && final(chip8)@ == key_given(old(chip8)@, k),
        key is Some ==> final(chip8)@.wf(),
        key is None ==> !goes_on && final(chip8)@ == old(chip8)@,
{
    match key {
        Some(k) => {
            chip8.give_key(k);
            true
        },
        None => false,
    }
}

/// Takes the frontend's report of the pressed keys: adds them to the pressed
/// keys and tells the driver to go on, or, without a report, changes nothing
/// and tells it to stop.
pub fn accept_keys(chip8: &mut Chip8, pressed: Option<[bool; 16]>) -> (goes_on: bool)
    ensures
        pressed matches Some(keys) ==> goes_on && final(chip8)@ == keys_merged(old(chip8)@, keys@),
        pressed is Some ==> final(chip8)@.wf(),
        pressed is None ==> !goes_on && final(chip8)@ == old(chip8)@,
{
    match pressed {
        Some(keys) => {
            chip8.set_keys(keys);
            true
        },
        None => false,
    }
}

/// Whether the driver is to present the display after a cycle: the cycle
/// changed it, and the caller wants it shown.
pub fn wants_display(chip8: &Chip8, present: bool) -> (shown: bool)
    ensures
        shown == (chip8@.draw_flag && present),
{
    chip8.draw_flag() && present
}

/// Runs the first half of a turn: one cycle; then, if the program waits for
/// a key, asks the frontend for one and delivers it; then sounds the tone if
/// the cycle requested it, and presents the display if the cycle changed it
/// and `present` holds.
///
/// Returns the error of a cycle that fails, without calling the frontend;
/// `Ok(false)` if the frontend asks to stop in place of giving a key, and
/// `Ok(true)` otherwise. A turn that goes on leaves no wait pending, so the
/// next cycle never runs while the program waits.
pub fn run_turn<T: Frontend>(chip8: &mut Chip8, frontend: &mut T, present: bool) -> (res: Result<
    bool,
    Chip8Error,
>)
    ensures
        final(chip8)@.wf(),
        exists|random_byte: u8| #[trigger] turn_ends(old(chip8)@, random_byte, final(chip8)@, res),
        res == Ok::<bool, Chip8Error>(true) ==> !final(chip8)@.wait_for_key_flag,
{
    let ghost before = chip8@;
    match chip8.emulate_cycle() {
        Ok(()) => {},
        Err(e) => {
            let ghost r = choose|r: u8| chip8@ == #[trigger] step(before, r);
            assert(turn_ends(before, r, chip8@, Err::<bool, Chip8Error>(e)));
            return Err(e);
        },
    }
    let ghost r = choose|r: u8| chip8@ == #[trigger] step(before, r);
    if chip8.wait_for_key_flag() {
        let key = frontend.get_key();
        if !accept_key(chip8, key) {
            assert(turn_ends(before, r, chip8@, Ok::<bool, Chip8Error>(false)));
            return Ok(false);
        }
    }
    if chip8.beep_flag() {
        frontend.beep();
    }
    if wants_display(chip8, present) {
        frontend.draw_graphics(*chip8.display());
    }
    assert(turn_ends(before, r, chip8@, Ok::<bool, Chip8Error>(true)));
    Ok(true)
}

/// Runs the second half of a turn: asks the frontend which keys were pressed
/// and adds them to the pressed keys. Returns `false`, and changes nothing,
/// if the frontend asks to stop.
pub fn poll_keys<T: Frontend>(chip8: &mut Chip8, frontend: &mut T) -> (goes_on: bool)
    ensures
        goes_on ==> final(chip8)@.wf() && exists|pressed: Seq<bool>|
            pressed.len() == 16 && final(chip8)@ == #[trigger] keys_merged(old(chip8)@, pressed),
        !goes_on ==> final(chip8)@ == old(chip8)@,
{
    let pressed = frontend.check_keys();
    accept_keys(chip8, pressed)
}

} // verus!
