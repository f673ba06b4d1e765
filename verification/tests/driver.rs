use rschip8::driver::{accept_key, accept_keys, poll_keys, run_turn, wants_display};
use rschip8::{Chip8, Chip8Error, Frontend};

/// A frontend that records what it is asked and answers from a script.
struct Script {
    drawn: Vec<[bool; 2048]>,
    beeps: std::cell::Cell<usize>,
    key: Option<u8>,
    keys: Option<[bool; 16]>,
    asked_for_key: usize,
}

impl Script {
    fn new(key: Option<u8>, keys: Option<[bool; 16]>) -> Self {
        Script { drawn: Vec::new(), beeps: std::cell::Cell::new(0), key, keys, asked_for_key: 0 }
    }
}

impl Frontend for Script {
    fn draw_graphics(&mut self, display: [bool; 2048]) {
        self.drawn.push(display);
    }

    fn beep(&self) {
        self.beeps.set(self.beeps.get() + 1);
    }

    fn check_keys(&mut self) -> Option<[bool; 16]> {
        self.keys
    }

    fn get_key(&mut self) -> Option<u8> {
        self.asked_for_key += 1;
        self.key
    }
}

fn machine(bytes: &[u8]) -> Chip8 {
    let mut chip8 = Chip8::new();
    assert_eq!(chip8.load(bytes), Ok(()));
    chip8
}

#[test]
fn turn_presents_a_changed_display() {
    let mut chip8 = machine(&[0xA0, 0x00, 0xD0, 0x05, 0x60, 0x00]);
    let mut frontend = Script::new(None, None);
    assert_eq!(run_turn(&mut chip8, &mut frontend, true), Ok(true));
    assert_eq!(frontend.drawn.len(), 0);
    assert_eq!(run_turn(&mut chip8, &mut frontend, true), Ok(true));
    assert_eq!(frontend.drawn.len(), 1);
    assert_eq!(&frontend.drawn[0], chip8.display());
    assert_eq!(run_turn(&mut chip8, &mut frontend, true), Ok(true));
    assert_eq!(frontend.drawn.len(), 1);
    assert_eq!(frontend.beeps.get(), 0);
    assert_eq!(frontend.asked_for_key, 0);
}

#[test]
fn turn_does_not_present_when_told_not_to() {
    let mut chip8 = machine(&[0x00, 0xE0]);
    let mut frontend = Script::new(None, None);
    assert_eq!(run_turn(&mut chip8, &mut frontend, false), Ok(true));
    assert!(chip8.draw_flag());
    assert_eq!(frontend.drawn.len(), 0);
}

#[test]
fn turn_sounds_the_tone() {
    let mut chip8 = machine(&[0x60, 0x01, 0xF0, 0x18, 0x60, 0x00]);
    let mut frontend = Script::new(None, None);
    assert_eq!(run_turn(&mut chip8, &mut frontend, true), Ok(true));
    assert_eq!(frontend.beeps.get(), 0);
    assert_eq!(run_turn(&mut chip8, &mut frontend, true), Ok(true));
    assert_eq!(frontend.beeps.get(), 1);
    assert_eq!(run_turn(&mut chip8, &mut frontend, true), Ok(true));
    assert_eq!(frontend.beeps.get(), 1);
}

#[test]
fn turn_delivers_the_key_that_the_program_waits_for() {
    let mut chip8 = machine(&[0xF5, 0x0A]);
    let mut frontend = Script::new(Some(0xC), None);
    assert_eq!(run_turn(&mut chip8, &mut frontend, true), Ok(true));
    assert_eq!(frontend.asked_for_key, 1);
    assert_eq!(chip8.registers()[5], 0xC);
    assert!(!chip8.wait_for_key_flag());
}

#[test]
fn turn_stops_when_no_key_comes() {
    let mut chip8 = machine(&[0xF5, 0x0A]);
    let mut frontend = Script::new(None, None);
    assert_eq!(run_turn(&mut chip8, &mut frontend, true), Ok(false));
    assert_eq!(frontend.asked_for_key, 1);
    assert!(chip8.wait_for_key_flag());
    assert_eq!(chip8.registers()[5], 0);
}

#[test]
fn turn_hands_on_the_error_of_the_cycle() {
    let mut chip8 = machine(&[0x00, 0xEE]);
    let mut frontend = Script::new(Some(1), None);
    assert_eq!(run_turn(&mut chip8, &mut frontend, true), Err(Chip8Error::StackUnderflow));
    assert_eq!(frontend.asked_for_key, 0);
    assert_eq!(frontend.drawn.len(), 0);
}

#[test]
fn poll_keys_merges_what_the_frontend_reports() {
    let mut chip8 = Chip8::new();
    let mut pressed = [false; 16];
    pressed[6] = true;
    let mut frontend = Script::new(None, Some(pressed));
    assert!(poll_keys(&mut chip8, &mut frontend));
    assert_eq!(chip8.keys(), &pressed);
}

#[test]
fn poll_keys_stops_when_the_frontend_says_so() {
    let mut chip8 = Chip8::new();
    let mut pressed = [false; 16];
    pressed[6] = true;
    chip8.set_keys(pressed);
    let mut frontend = Script::new(None, None);
    assert!(!poll_keys(&mut chip8, &mut frontend));
    assert_eq!(chip8.keys(), &pressed);
}

#[test]
fn accept_key_delivers_or_stops() {
    let mut chip8 = machine(&[0xF5, 0x0A]);
    assert_eq!(chip8.emulate_cycle_with(0), Ok(()));
    assert!(!accept_key(&mut chip8, None));
    assert!(chip8.wait_for_key_flag());
    assert_eq!(chip8.registers()[5], 0);
    assert!(accept_key(&mut chip8, Some(9)));
    assert!(!chip8.wait_for_key_flag());
    assert_eq!(chip8.registers()[5], 9);
}

#[test]
fn accept_keys_merges_or_stops() {
    let mut chip8 = Chip8::new();
    let mut pressed = [false; 16];
    pressed[1] = true;
    assert!(accept_keys(&mut chip8, Some(pressed)));
    assert_eq!(chip8.keys(), &pressed);
    assert!(!accept_keys(&mut chip8, None));
    assert_eq!(chip8.keys(), &pressed);
}

#[test]
fn display_is_wanted_when_changed_and_shown() {
    let mut chip8 = machine(&[0x00, 0xE0, 0x60, 0x00]);
    assert!(!wants_display(&chip8, true));
    assert_eq!(chip8.emulate_cycle_with(0), Ok(()));
    assert!(wants_display(&chip8, true));
    assert!(!wants_display(&chip8, false));
    assert_eq!(chip8.emulate_cycle_with(0), Ok(()));
    assert!(!wants_display(&chip8, true));
}
