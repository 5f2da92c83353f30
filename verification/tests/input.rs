use gouda::input::{
    osx_process_key, osx_process_keyboard_message, win32_process_mouse_message, GameButtonState,
    KeyboardInput, LetterKeys, MouseInput, NumberKeys, SpecialKeys,
};

fn up() -> GameButtonState {
    GameButtonState { ended_down: false, half_transition_count: 0 }
}

fn keyboard() -> KeyboardInput {
    KeyboardInput {
        special_keys: [up(); 5],
        letter_keys: [up(); 26],
        number_keys: [up(); 10],
        cmd_down: false,
    }
}

#[test]
fn message_counts_changes_only() {
    let mut s = up();
    osx_process_keyboard_message(&mut s, true);
    assert_eq!(s, GameButtonState { ended_down: true, half_transition_count: 1 });
    osx_process_keyboard_message(&mut s, true);
    assert_eq!(s, GameButtonState { ended_down: true, half_transition_count: 1 });
    osx_process_keyboard_message(&mut s, false);
    assert_eq!(s, GameButtonState { ended_down: false, half_transition_count: 2 });
}

#[test]
fn letters_ignore_case() {
    let mut kb = keyboard();
    osx_process_key(&mut kb, 'a' as u16, true);
    let a = kb.letter_keys[LetterKeys::A.index()];
    assert_eq!(a, GameButtonState { ended_down: true, half_transition_count: 1 });
    osx_process_key(&mut kb, 'A' as u16, false);
    let a = kb.letter_keys[LetterKeys::A.index()];
    assert_eq!(a, GameButtonState { ended_down: false, half_transition_count: 2 });
    osx_process_key(&mut kb, 'Z' as u16, true);
    assert!(kb.letter_keys[LetterKeys::Z.index()].ended_down);
    assert!(!kb.letter_keys[LetterKeys::Y.index()].ended_down);
}

#[test]
fn arrows_space_and_digits() {
    let mut kb = keyboard();
    osx_process_key(&mut kb, 0xF700, true);
    osx_process_key(&mut kb, 0xF703, true);
    osx_process_key(&mut kb, ' ' as u16, true);
    osx_process_key(&mut kb, '7' as u16, true);
    assert!(kb.special_keys[SpecialKeys::UpArrow.index()].ended_down);
    assert!(kb.special_keys[SpecialKeys::RightArrow.index()].ended_down);
    assert!(!kb.special_keys[SpecialKeys::DownArrow.index()].ended_down);
    assert!(kb.special_keys[SpecialKeys::Space.index()].ended_down);
    assert!(kb.number_keys[NumberKeys::SEVEN.index()].ended_down);
    assert_eq!(NumberKeys::ZERO.index(), 0);
    assert_eq!(NumberKeys::NINE.index(), 9);
}

#[test]
fn other_code_units_are_ignored() {
    let mut kb = keyboard();
    for c in [0xD800u16, 0xDFFF, '!' as u16, 0xF704, 0x00E9].iter() {
        osx_process_key(&mut kb, *c, true);
    }
    assert!(kb.special_keys.iter().all(|k| *k == up()));
    assert!(kb.letter_keys.iter().all(|k| *k == up()));
    assert!(kb.number_keys.iter().all(|k| *k == up()));
}

fn mouse() -> MouseInput {
    MouseInput { x: 0, y: 0, buttons: [up(); 5] }
}

fn down_once() -> GameButtonState {
    GameButtonState { ended_down: true, half_transition_count: 1 }
}

#[test]
fn letter_down_reads_the_letter_slot() {
    let mut kb = keyboard();
    osx_process_key(&mut kb, 'q' as u16, true);
    assert!(kb.letter_down(LetterKeys::Q));
    assert!(!kb.letter_down(LetterKeys::W));
    assert!(!kb.cmd_down);
}

#[test]
fn win32_mouse_move_sets_signed_position() {
    let mut m = mouse();
    // x = -2 (0xFFFE), y = 300 (0x012C)
    assert!(win32_process_mouse_message(&mut m, 0x0200, 0, 0x012C_FFFE));
    assert_eq!((m.x, m.y), (-2, 300));
    assert!(m.buttons.iter().all(|b| *b == up()));
}

#[test]
fn win32_buttons_go_to_their_slots() {
    let mut m = mouse();
    assert!(win32_process_mouse_message(&mut m, 0x0201, 0, 0));
    assert_eq!(m.buttons[0], down_once());
    assert!(win32_process_mouse_message(&mut m, 0x0202, 0, 0));
    assert_eq!(m.buttons[0], GameButtonState { ended_down: false, half_transition_count: 2 });
    assert!(win32_process_mouse_message(&mut m, 0x0207, 0, 0));
    assert_eq!(m.buttons[1], down_once());
    assert!(win32_process_mouse_message(&mut m, 0x0204, 0, 0));
    assert_eq!(m.buttons[2], down_once());
    assert!(win32_process_mouse_message(&mut m, 0x020B, 1 << 16, 0));
    assert_eq!(m.buttons[3], down_once());
    assert!(win32_process_mouse_message(&mut m, 0x020B, 2 << 16, 0));
    assert_eq!(m.buttons[4], down_once());
    assert!(win32_process_mouse_message(&mut m, 0x020C, 2 << 16, 0));
    assert_eq!(m.buttons[4], GameButtonState { ended_down: false, half_transition_count: 2 });
    assert_eq!((m.x, m.y), (0, 0));
}

#[test]
fn win32_other_messages_change_nothing() {
    let mut m = mouse();
    // an extra-button message naming neither extra button is still a mouse message
    assert!(win32_process_mouse_message(&mut m, 0x020B, 3 << 16, 0));
    // a key message is left for the window's own dispatch
    assert!(!win32_process_mouse_message(&mut m, 0x0100, 0x41, 0));
    assert!(m.buttons.iter().all(|b| *b == up()));
    assert_eq!((m.x, m.y), (0, 0));
}
