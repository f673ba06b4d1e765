//! The keypad: which key of a keyboard stands for which of the sixteen keys,
//! and how the bytes of a terminal spell a key.
//!
//! The letters `q w e r t y` and `a s d f g h` stand for the keys
//! `0 1 3 5 7 9` and `A B C D E F`, the four arrows for the keys `2 4 6 8`
//! that lie up, left, right and down on the keypad, and `x` asks to stop.
//! A terminal sends an arrow as the bytes escape, `[` and a letter from `A`
//! to `D`.

use vstd::prelude::*;

verus! {

/// The byte that starts an escape sequence.
pub const ESCAPE: u8 = 0x1B;

/// The byte `[`, which follows the escape byte in an arrow's sequence.
pub const BRACKET: u8 = 0x5B;

/// A key of the keyboard, or a request to close, as a frontend reports it.
#[derive(Debug, PartialEq, Eq, Clone, Copy)]
pub enum KeyEvent {
    Up,
    Down,
    Left,
    Right,
    /// A letter key, by its lower-case ASCII code.
    Letter(u8),
    /// The window was closed.
    Quit,
    /// Any other event.
    Other,
}

/// What an input means to the driver.
#[derive(Debug, PartialEq, Eq, Clone, Copy)]
pub enum KeyInput {
    /// The key with this index, below 16, was pressed.
    Key(u8),
    /// The user asks to stop.
    Quit,
    /// The input names no key.
    Nothing,
}

/// How far a terminal's escape sequence has come.
#[derive(Debug, PartialEq, Eq, Clone, Copy)]
pub enum KeyState {
    /// No sequence has begun.
    Ground,
    /// The escape byte was read.
    Escape,
    /// The byte `[` was read.
    Bracket,
}

/// What a byte of the terminal leads to.
#[derive(Debug, PartialEq, Eq, Clone, Copy)]
pub enum KeyStep {
    /// The sequence goes on: read another byte in this state.
    More(KeyState),
    /// The sequence is over, with this meaning.
    Done(KeyInput),
}

/// The key that a letter stands for.
pub open spec fn spec_letter_key(letter: u8) -> Option<u8> {
    if letter == 'q' as u8 {
        Some(0x0u8)
    } else if letter == 'w' as u8 {
        Some(0x1u8)
    } else if letter == 'e' as u8 {
        Some(0x3u8)
    } else if letter == 'r' as u8 {
        Some(0x5u8)
    } else if letter == 't' as u8 {
        Some(0x7u8)
    } else if letter == 'y' as u8 {
        Some(0x9u8)
    } else if letter == 'a' as u8 {
        Some(0xAu8)
    } else if letter == 's' as u8 {
        Some(0xBu8)
    } else if letter == 'd' as u8 {
        Some(0xCu8)
    } else if letter == 'f' as u8 {
        Some(0xDu8)
    } else if letter == 'g' as u8 {
        Some(0xEu8)
    } else if letter == 'h' as u8 {
        Some(0xFu8)
    } else {
        None
    }
}

/// The key that the last byte of an arrow's escape sequence stands for:
/// `A` is up, `B` down, `C` right and `D` left.
pub open spec fn spec_arrow_key(code: u8) -> Option<u8> {
    if code == 'A' as u8 {
        Some(0x2u8)
    } else if code == 'D' as u8 {
        Some(0x4u8)
    } else if code == 'C' as u8 {
        Some(0x6u8)
    } else if code == 'B' as u8 {
        Some(0x8u8)
    } else {
        None
    }
}

/// What a key or a letter found, as an input.
pub open spec fn input_of(key: Option<u8>) -> KeyInput {
    match key {
        Some(k) => KeyInput::Key(k),
        None => KeyInput::Nothing,
    }
}

/// What a single byte means that belongs to no escape sequence: a letter's
/// key, the request to stop for `x`, nothing otherwise.
pub open spec fn spec_byte_input(byte: u8) -> KeyInput {
    if byte == 'x' as u8 {
        KeyInput::Quit
    } else {
        input_of(spec_letter_key(byte))
    }
}

/// What a keyboard event means.
pub open spec fn spec_key_for_event(event: KeyEvent) -> KeyInput {
    match event {
        KeyEvent::Up => KeyInput::Key(0x2),
        KeyEvent::Down => KeyInput::Key(0x8),
        KeyEvent::Left => KeyInput::Key(0x4),
        KeyEvent::Right => KeyInput::Key(0x6),
        KeyEvent::Letter(letter) => spec_byte_input(letter),
        KeyEvent::Quit => KeyInput::Quit,
        KeyEvent::Other => KeyInput::Nothing,
    }
}

/// What the next byte leads to while the terminal is polled for keys. Only a
/// whole escape sequence spells an arrow, and a byte that is missing or does
/// not fit ends the poll with nothing.
pub open spec fn spec_poll_step(state: KeyState, byte: Option<u8>) -> KeyStep {
    match byte {
        None => KeyStep::Done(KeyInput::Nothing),
        Some(b) => match state {
            KeyState::Ground => if b == ESCAPE {
                KeyStep::More(KeyState::Escape)
            } else {
                KeyStep::Done(spec_byte_input(b))
            },
            KeyState::Escape => if b == BRACKET {
                KeyStep::More(KeyState::Bracket)
            } else {
                KeyStep::Done(KeyInput::Nothing)
            },
            KeyState::Bracket => KeyStep::Done(input_of(spec_arrow_key(b))),
        },
    }
}

/// What the next byte leads to while the terminal is waited on for a key.
/// The start of an arrow's sequence may be lost: `[` and a letter, or the
/// letter from `A` to `D` alone, spell the arrow too. `Nothing` asks to read
/// on from the ground state.
pub open spec fn spec_wait_step(state: KeyState, byte: Option<u8>) -> KeyStep {
    match byte {
        None => KeyStep::Done(KeyInput::Nothing),
        Some(b) => match state {
            KeyState::Ground => if b == ESCAPE {
                KeyStep::More(KeyState::Escape)
            } else if b == BRACKET {
                KeyStep::More(KeyState::Bracket)
            } else if spec_arrow_key(b) is Some {
                KeyStep::Done(input_of(spec_arrow_key(b)))
            } else {
                KeyStep::Done(spec_byte_input(b))
            },
            KeyState::Escape => if b == BRACKET {
                KeyStep::More(KeyState::Bracket)
            } else {
                KeyStep::Done(KeyInput::Nothing)
            },
            KeyState::Bracket => KeyStep::Done(input_of(spec_arrow_key(b))),
        },
    }
}

/// Every key that an input names is one of the sixteen.
pub proof fn lemma_keys_in_range(event: KeyEvent, state: KeyState, byte: Option<u8>)
    ensures
        spec_key_for_event(event) matches KeyInput::Key(k) ==> k < 16,
        spec_poll_step(state, byte) matches KeyStep::Done(KeyInput::Key(k)) ==> k < 16,
        spec_wait_step(state, byte) matches KeyStep::Done(KeyInput::Key(k)) ==> k < 16,
{
}

/// Finds the key that a letter stands for.
pub fn letter_key(letter: u8) -> (key: Option<u8>)
    ensures
        key == spec_letter_key(letter),
        key matches Some(k) ==> k < 16,
{
    // The ASCII codes of q w e r t y and a s d f g h.
    match letter {
        113 => Some(0x0),
        119 => Some(0x1),
        101 => Some(0x3),
        114 => Some(0x5),
        116 => Some(0x7),
        121 => Some(0x9),
        97 => Some(0xA),
        115 => Some(0xB),
        100 => Some(0xC),
        102 => Some(0xD),
        103 => Some(0xE),
        104 => Some(0xF),
        _ => None,
    }
}

/// Finds the key that the last byte of an arrow's escape sequence stands for.
pub fn arrow_key(code: u8) -> (key: Option<u8>)
    ensures
        key == spec_arrow_key(code),
        key matches Some(k) ==> k < 16,
{
    // The ASCII codes of A, D, C and B.
    match code {
        65 => Some(0x2),
        68 => Some(0x4),
        67 => Some(0x6),
        66 => Some(0x8),
        _ => None,
    }
}

/// Tells what a single byte outside an escape sequence means.
pub fn byte_input(byte: u8) -> (input: KeyInput)
    ensures
        input == spec_byte_input(byte),
{
    // The ASCII code of x.
    if byte == 120 {
        KeyInput::Quit
    } else {
        match letter_key(byte) {
            Some(k) => KeyInput::Key(k),
            None => KeyInput::Nothing,
        }
    }
}

/// Tells what a keyboard event means.
pub fn key_for_event(event: KeyEvent) -> (input: KeyInput)
    ensures
        input == spec_key_for_event(event),
        input matches KeyInput::Key(k) ==> k < 16,
{
    match event {
        KeyEvent::Up => KeyInput::Key(0x2),
        KeyEvent::Down => KeyInput::Key(0x8),
        KeyEvent::Left => KeyInput::Key(0x4),
        KeyEvent::Right => KeyInput::Key(0x6),
        KeyEvent::Letter(letter) => byte_input(letter),
        KeyEvent::Quit => KeyInput::Quit,
        KeyEvent::Other => KeyInput::Nothing,
    }
}

/// Takes the next byte of the terminal, or its absence, while the terminal is
/// polled for keys.
pub fn poll_step(state: KeyState, byte: Option<u8>) -> (step: KeyStep)
    ensures
        step == spec_poll_step(state, byte),
        step matches KeyStep::Done(KeyInput::Key(k)) ==> k < 16,
{
    let b = match byte {
        Some(b) => b,
        None => {
            return KeyStep::Done(KeyInput::Nothing);
        },
    };
    match state {
        KeyState::Ground => if b == ESCAPE {
            KeyStep::More(KeyState::Escape)
        } else {
            KeyStep::Done(byte_input(b))
        },
        KeyState::Escape => if b == BRACKET {
            KeyStep::More(KeyState::Bracket)
        } else {
            KeyStep::Done(KeyInput::Nothing)
        },
        KeyState::Bracket => match arrow_key(b) {
            Some(k) => KeyStep::Done(KeyInput::Key(k)),
            None => KeyStep::Done(KeyInput::Nothing),
        },
    }
}

/// Takes the next byte of the terminal, or its absence, while the terminal is
/// waited on for a key.
pub fn wait_step(state: KeyState, byte: Option<u8>) -> (step: KeyStep)
    ensures
        step == spec_wait_step(state, byte),
        step matches KeyStep::Done(KeyInput::Key(k)) ==> k < 16,
{
    let b = match byte {
        Some(b) => b,
        None => {
            return KeyStep::Done(KeyInput::Nothing);
        },
    };
    match state {
        KeyState::Ground => if b == ESCAPE {
            KeyStep::More(KeyState::Escape)
        } else if b == BRACKET {
            KeyStep::More(KeyState::Bracket)
        } else {
            match arrow_key(b) {
                Some(k) => KeyStep::Done(KeyInput::Key(k)),
                None => KeyStep::Done(byte_input(b)),
            }
        },
        KeyState::Escape => if b == BRACKET {
            KeyStep::More(KeyState::Bracket)
        } else {
            KeyStep::Done(KeyInput::Nothing)
        },
        KeyState::Bracket => match arrow_key(b) {
            Some(k) => KeyStep::Done(KeyInput::Key(k)),
            None => KeyStep::Done(KeyInput::Nothing),
        },
    }
}

} // verus!
