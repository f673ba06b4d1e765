use rschip8::keypad::{
    arrow_key, byte_input, key_for_event, letter_key, poll_step, wait_step, KeyEvent, KeyInput,
    KeyState, KeyStep, BRACKET, ESCAPE,
};

#[test]
fn letters_stand_for_their_keys() {
    let layout = [
        (b'q', 0x0),
        (b'w', 0x1),
        (b'e', 0x3),
        (b'r', 0x5),
        (b't', 0x7),
        (b'y', 0x9),
        (b'a', 0xA),
        (b's', 0xB),
        (b'd', 0xC),
        (b'f', 0xD),
        (b'g', 0xE),
        (b'h', 0xF),
    ];
    for (letter, key) in layout {
        assert_eq!(letter_key(letter), Some(key));
        assert_eq!(byte_input(letter), KeyInput::Key(key));
    }
    assert_eq!(letter_key(b'x'), None);
    assert_eq!(letter_key(b'Q'), None);
    assert_eq!(letter_key(b'z'), None);
    assert_eq!(letter_key(0), None);
    let named = (0..=255u8).filter(|byte| letter_key(*byte).is_some()).count();
    assert_eq!(named, 12);
}

#[test]
fn arrows_stand_for_the_cross_of_the_keypad() {
    assert_eq!(arrow_key(b'A'), Some(0x2));
    assert_eq!(arrow_key(b'B'), Some(0x8));
    assert_eq!(arrow_key(b'C'), Some(0x6));
    assert_eq!(arrow_key(b'D'), Some(0x4));
    assert_eq!(arrow_key(b'E'), None);
    assert_eq!(arrow_key(b'a'), None);
    let named = (0..=255u8).filter(|byte| arrow_key(*byte).is_some()).count();
    assert_eq!(named, 4);
}

#[test]
fn x_asks_to_stop() {
    assert_eq!(byte_input(b'x'), KeyInput::Quit);
    assert_eq!(byte_input(b'X'), KeyInput::Nothing);
    assert_eq!(byte_input(b'1'), KeyInput::Nothing);
}

#[test]
fn events_of_a_keyboard() {
    assert_eq!(key_for_event(KeyEvent::Up), KeyInput::Key(0x2));
    assert_eq!(key_for_event(KeyEvent::Down), KeyInput::Key(0x8));
    assert_eq!(key_for_event(KeyEvent::Left), KeyInput::Key(0x4));
    assert_eq!(key_for_event(KeyEvent::Right), KeyInput::Key(0x6));
    assert_eq!(key_for_event(KeyEvent::Letter(b'q')), KeyInput::Key(0x0));
    assert_eq!(key_for_event(KeyEvent::Letter(b'h')), KeyInput::Key(0xF));
    assert_eq!(key_for_event(KeyEvent::Letter(b'x')), KeyInput::Quit);
    assert_eq!(key_for_event(KeyEvent::Letter(b'p')), KeyInput::Nothing);
    assert_eq!(key_for_event(KeyEvent::Quit), KeyInput::Quit);
    assert_eq!(key_for_event(KeyEvent::Other), KeyInput::Nothing);
}

#[test]
fn poll_reads_a_whole_arrow_sequence() {
    assert_eq!(poll_step(KeyState::Ground, Some(ESCAPE)), KeyStep::More(KeyState::Escape));
    assert_eq!(poll_step(KeyState::Escape, Some(BRACKET)), KeyStep::More(KeyState::Bracket));
    assert_eq!(poll_step(KeyState::Bracket, Some(b'A')), KeyStep::Done(KeyInput::Key(0x2)));
    assert_eq!(poll_step(KeyState::Bracket, Some(b'D')), KeyStep::Done(KeyInput::Key(0x4)));
    assert_eq!(poll_step(KeyState::Bracket, Some(b'q')), KeyStep::Done(KeyInput::Nothing));
    assert_eq!(poll_step(KeyState::Escape, Some(b'A')), KeyStep::Done(KeyInput::Nothing));
}

#[test]
fn poll_takes_letters_and_no_bare_arrows() {
    assert_eq!(poll_step(KeyState::Ground, Some(b'w')), KeyStep::Done(KeyInput::Key(0x1)));
    assert_eq!(poll_step(KeyState::Ground, Some(b'x')), KeyStep::Done(KeyInput::Quit));
    assert_eq!(poll_step(KeyState::Ground, Some(b'A')), KeyStep::Done(KeyInput::Nothing));
    assert_eq!(poll_step(KeyState::Ground, Some(BRACKET)), KeyStep::Done(KeyInput::Nothing));
}

#[test]
fn poll_ends_when_no_byte_comes() {
    assert_eq!(poll_step(KeyState::Ground, None), KeyStep::Done(KeyInput::Nothing));
    assert_eq!(poll_step(KeyState::Escape, None), KeyStep::Done(KeyInput::Nothing));
    assert_eq!(poll_step(KeyState::Bracket, None), KeyStep::Done(KeyInput::Nothing));
}

#[test]
fn wait_takes_an_arrow_with_its_start_lost() {
    assert_eq!(wait_step(KeyState::Ground, Some(ESCAPE)), KeyStep::More(KeyState::Escape));
    assert_eq!(wait_step(KeyState::Escape, Some(BRACKET)), KeyStep::More(KeyState::Bracket));
    assert_eq!(wait_step(KeyState::Ground, Some(BRACKET)), KeyStep::More(KeyState::Bracket));
    assert_eq!(wait_step(KeyState::Bracket, Some(b'C')), KeyStep::Done(KeyInput::Key(0x6)));
    assert_eq!(wait_step(KeyState::Ground, Some(b'B')), KeyStep::Done(KeyInput::Key(0x8)));
    assert_eq!(wait_step(KeyState::Bracket, Some(b'x')), KeyStep::Done(KeyInput::Nothing));
    assert_eq!(wait_step(KeyState::Escape, Some(b'C')), KeyStep::Done(KeyInput::Nothing));
}

#[test]
fn wait_takes_letters_and_the_request_to_stop() {
    assert_eq!(wait_step(KeyState::Ground, Some(b'g')), KeyStep::Done(KeyInput::Key(0xE)));
    assert_eq!(wait_step(KeyState::Ground, Some(b'x')), KeyStep::Done(KeyInput::Quit));
    assert_eq!(wait_step(KeyState::Ground, Some(b'z')), KeyStep::Done(KeyInput::Nothing));
    assert_eq!(wait_step(KeyState::Ground, None), KeyStep::Done(KeyInput::Nothing));
    assert_eq!(wait_step(KeyState::Bracket, None), KeyStep::Done(KeyInput::Nothing));
}
