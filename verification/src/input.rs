//! Keyboard and mouse button state as the platform layers record it.
use vstd::prelude::*;

verus! {

/// The state of one button over a frame: whether it ended the frame held
/// down, and how many times it went up or down during the frame.
#[derive(Debug, Clone, Copy, PartialEq, Eq, Structural)]
pub struct GameButtonState {
    pub ended_down: bool,
    pub half_transition_count: i32,
}

/// The state after a key or button message: a change of position is recorded
/// as one more half transition; a repeat of the current position changes
/// nothing.
pub open spec fn after_message(s: GameButtonState, is_down: bool) -> GameButtonState {
    if s.ended_down != is_down {
        GameButtonState { ended_down: is_down, half_transition_count: (s.half_transition_count + 1) as i32 }
    } else {
        s
    }
}

/// Whether recording `is_down` on `s` keeps the transition count in range.
pub open spec fn can_record(s: GameButtonState, is_down: bool) -> bool {
    s.ended_down != is_down ==> s.half_transition_count < i32::MAX
}

/// Repeating a message changes nothing, and a change of position counts
/// exactly one half transition.
pub proof fn lemma_message_idempotent(s: GameButtonState, is_down: bool)
    requires
        can_record(s, is_down),
    ensures
        after_message(after_message(s, is_down), is_down) == after_message(s, is_down),
        after_message(s, is_down).ended_down == is_down,
        s.ended_down != is_down ==> after_message(s, is_down).half_transition_count
            == s.half_transition_count + 1,
{
}

/// Records a key or button message on `new_state`.
pub fn osx_process_keyboard_message(new_state: &mut GameButtonState, is_down: bool)
    requires
        can_record(*old(new_state), is_down),
    ensures
        *final(new_state) == after_message(*old(new_state), is_down),
{
    if new_state.ended_down != is_down {
        new_state.ended_down = is_down;
        new_state.half_transition_count += 1;
    }
}

/// Keys other than letters and digits.
#[derive(Debug, Clone, Copy, PartialEq, Eq, Structural)]
pub enum SpecialKeys {
    UpArrow,
    DownArrow,
    LeftArrow,
    RightArrow,
    Space,
}

impl SpecialKeys {
    /// Position of this key's state in the keyboard's table.
    pub open spec fn spec_index(self) -> int {
        match self {
            SpecialKeys::UpArrow => 0,
            SpecialKeys::DownArrow => 1,
            SpecialKeys::LeftArrow => 2,
            SpecialKeys::RightArrow => 3,
            SpecialKeys::Space => 4,
        }
    }

    /// Position of this key's state in the keyboard's table.
    pub fn index(self) -> (r: usize)
        ensures
            r == self.spec_index(),
    {
        match self {
            SpecialKeys::UpArrow => 0,
            SpecialKeys::DownArrow => 1,
            SpecialKeys::LeftArrow => 2,
            SpecialKeys::RightArrow => 3,
            SpecialKeys::Space => 4,
        }
    }
}

/// Letter keys, case-insensitive.
#[derive(Debug, Clone, Copy, PartialEq, Eq, Structural)]
pub enum LetterKeys {
    A,
    B,
    C,
    D,
    E,
    F,
    G,
    H,
    I,
    J,
    K,
    L,
    M,
    N,
    O,
    P,
    Q,
    R,
    S,
    T,
    U,
    V,
    W,
    X,
    Y,
    Z,
}

impl LetterKeys {
    /// Position of this key's state in the keyboard's table.
    pub open spec fn spec_index(self) -> int {
        match self {
            LetterKeys::A => 0,
            LetterKeys::B => 1,
            LetterKeys::C => 2,
            LetterKeys::D => 3,
            LetterKeys::E => 4,
            LetterKeys::F => 5,
            LetterKeys::G => 6,
            LetterKeys::H => 7,
            LetterKeys::I => 8,
            LetterKeys::J => 9,
            LetterKeys::K => 10,
            LetterKeys::L => 11,
            LetterKeys::M => 12,
            LetterKeys::N => 13,
            LetterKeys::O => 14,
            LetterKeys::P => 15,
            LetterKeys::Q => 16,
            LetterKeys::R => 17,
            LetterKeys::S => 18,
            LetterKeys::T => 19,
            LetterKeys::U => 20,
            LetterKeys::V => 21,
            LetterKeys::W => 22,
            LetterKeys::X => 23,
            LetterKeys::Y => 24,
            LetterKeys::Z => 25,
        }
    }

    /// Position of this key's state in the keyboard's table.
    pub fn index(self) -> (r: usize)
        ensures
            r == self.spec_index(),
    {
        match self {
            LetterKeys::A => 0,
            LetterKeys::B => 1,
            LetterKeys::C => 2,
            LetterKeys::D => 3,
            LetterKeys::E => 4,
            LetterKeys::F => 5,
            LetterKeys::G => 6,
            LetterKeys::H => 7,
            LetterKeys::I => 8,
            LetterKeys::J => 9,
            LetterKeys::K => 10,
            LetterKeys::L => 11,
            LetterKeys::M => 12,
            LetterKeys::N => 13,
            LetterKeys::O => 14,
            LetterKeys::P => 15,
            LetterKeys::Q => 16,
            LetterKeys::R => 17,
            LetterKeys::S => 18,
            LetterKeys::T => 19,
            LetterKeys::U => 20,
            LetterKeys::V => 21,
            LetterKeys::W => 22,
            LetterKeys::X => 23,
            LetterKeys::Y => 24,
            LetterKeys::Z => 25,
        }
    }
}

/// Digit keys of the main row.
#[derive(Debug, Clone, Copy, PartialEq, Eq, Structural)]
pub enum NumberKeys {
    ZERO,
    ONE,
    TWO,
    THREE,
    FOUR,
    FIVE,
    SIX,
    SEVEN,
    EIGHT,
    NINE,
}

impl NumberKeys {
    /// Position of this key's state in the keyboard's table.
    pub open spec fn spec_index(self) -> int {
        match self {
            NumberKeys::ZERO => 0,
            NumberKeys::ONE => 1,
            NumberKeys::TWO => 2,
            NumberKeys::THREE => 3,
            NumberKeys::FOUR => 4,
            NumberKeys::FIVE => 5,
            NumberKeys::SIX => 6,
            NumberKeys::SEVEN => 7,
            NumberKeys::EIGHT => 8,
            NumberKeys::NINE => 9,
        }
    }

    /// Position of this key's state in the keyboard's table.
    pub fn index(self) -> (r: usize)
        ensures
            r == self.spec_index(),
    {
        match self {
            NumberKeys::ZERO => 0,
            NumberKeys::ONE => 1,
            NumberKeys::TWO => 2,
            NumberKeys::THREE => 3,
            NumberKeys::FOUR => 4,
            NumberKeys::FIVE => 5,
            NumberKeys::SIX => 6,
            NumberKeys::SEVEN => 7,
            NumberKeys::EIGHT => 8,
            NumberKeys::NINE => 9,
        }
    }
}

/// The state of every keyboard key the platform layers track.
#[derive(Debug, Clone, Copy)]
pub struct KeyboardInput {
    pub special_keys: [GameButtonState; 5],
    pub letter_keys: [GameButtonState; 26],
    pub number_keys: [GameButtonState; 10],
    pub cmd_down: bool,
}

/// The special key a UTF-16 code unit names, as its table position, or -1.
pub open spec fn special_key_of(c: u16) -> int {
    if c == 0xF700 {
        0
    } else if c == 0xF701 {
        1
    } else if c == 0xF702 {
        2
    } else if c == 0xF703 {
        3
    } else if c == 0x20 {
        4
    } else {
        -1
    }
}

/// The letter key a UTF-16 code unit names (either case), as its table
/// position, or -1.
pub open spec fn letter_key_of(c: u16) -> int {
    if 0x41 <= c <= 0x5A {
        c - 0x41
    } else if 0x61 <= c <= 0x7A {
        c - 0x61
    } else {
        -1
    }
}

/// The digit key a UTF-16 code unit names, as its table position, or -1.
pub open spec fn number_key_of(c: u16) -> int {
    if 0x30 <= c <= 0x39 {
        c - 0x30
    } else {
        -1
    }
}

/// A key table after a message for position `i`; unchanged when `i` names
/// no position.
pub open spec fn keys_after(s: Seq<GameButtonState>, i: int, is_down: bool) -> Seq<GameButtonState> {
    if 0 <= i < s.len() {
        s.update(i, after_message(s[i], is_down))
    } else {
        s
    }
}

/// Whether a message for position `i` keeps the transition count in range.
pub open spec fn keys_can_record(s: Seq<GameButtonState>, i: int, is_down: bool) -> bool {
    0 <= i < s.len() ==> can_record(s[i], is_down)
}

impl KeyboardInput {
    /// Whether the key named by `c` can record `key_down`.
    pub open spec fn can_process(self, c: u16, key_down: bool) -> bool {
        &&& keys_can_record(self.special_keys@, special_key_of(c), key_down)
        &&& keys_can_record(self.letter_keys@, letter_key_of(c), key_down)
        &&& keys_can_record(self.number_keys@, number_key_of(c), key_down)
    }
}

/// Letter keys ignore case, and a code unit names at most one key.
pub proof fn lemma_key_names(c: u16)
    ensures
        0x41 <= c <= 0x5A ==> letter_key_of(c) == letter_key_of((c + 0x20) as u16),
        special_key_of(c) >= 0 ==> letter_key_of(c) < 0 && number_key_of(c) < 0,
        letter_key_of(c) >= 0 ==> special_key_of(c) < 0 && number_key_of(c) < 0,
        number_key_of(c) >= 0 ==> special_key_of(c) < 0 && letter_key_of(c) < 0,
        -1 <= special_key_of(c) < 5,
        -1 <= letter_key_of(c) < 26,
        -1 <= number_key_of(c) < 10,
{
}

/// Each code unit records on the key it names: the four arrow function keys
/// of macOS (`NSUpArrowFunctionKey` to `NSRightArrowFunctionKey`) on their
/// arrows and the space bar on `Space`; a letter, in either case, on its
/// letter in alphabetical order; a digit on its digit.
pub proof fn lemma_key_codes(c: u16)
    ensures
        special_key_of(0xF700) == SpecialKeys::UpArrow.spec_index(),
        special_key_of(0xF701) == SpecialKeys::DownArrow.spec_index(),
        special_key_of(0xF702) == SpecialKeys::LeftArrow.spec_index(),
        special_key_of(0xF703) == SpecialKeys::RightArrow.spec_index(),
        special_key_of(0x20) == SpecialKeys::Space.spec_index(),
        0x41 <= c <= 0x5A ==> letter_key_of(c) == c - 0x41 && letter_key_of((c + 0x20) as u16)
            == c - 0x41,
        0x30 <= c <= 0x39 ==> number_key_of(c) == c - 0x30,
        LetterKeys::A.spec_index() == 0,
        LetterKeys::Q.spec_index() == 16,
        LetterKeys::Z.spec_index() == 25,
        NumberKeys::ZERO.spec_index() == 0,
        NumberKeys::SEVEN.spec_index() == 7,
        NumberKeys::NINE.spec_index() == 9,
{
}

/// Records a message at position `i` of a key table.
fn process_slot<const N: usize>(keys: &mut [GameButtonState; N], i: usize, key_down: bool)
    requires
        i < N,
        can_record(old(keys)@[i as int], key_down),
    ensures
        final(keys)@ == keys_after(old(keys)@, i as int, key_down),
{
    let mut state = keys[i];
    osx_process_keyboard_message(&mut state, key_down);
    keys[i] = state;
    assert(keys@ =~= keys_after(old(keys)@, i as int, key_down));
}

/// Records a key message from the macOS event loop: `u16_char` is the UTF-16
/// code unit of the key; arrows, space, letters (either case) and digits are
/// tracked, every other code unit (an unpaired surrogate too) is ignored.
pub fn osx_process_key(keyboard: &mut KeyboardInput, u16_char: u16, key_down: bool)
    requires
        old(keyboard).can_process(u16_char, key_down),
    ensures
        final(keyboard).special_keys@ == keys_after(
            old(keyboard).special_keys@,
            special_key_of(u16_char),
            key_down,
        ),
        final(keyboard).letter_keys@ == keys_after(
            old(keyboard).letter_keys@,
            letter_key_of(u16_char),
            key_down,
        ),
        final(keyboard).number_keys@ == keys_after(
            old(keyboard).number_keys@,
            number_key_of(u16_char),
            key_down,
        ),
        final(keyboard).cmd_down == old(keyboard).cmd_down,
{
    match u16_char {
        0xF700 => process_slot(&mut keyboard.special_keys, SpecialKeys::UpArrow.index(), key_down),
        0xF701 => process_slot(&mut keyboard.special_keys, SpecialKeys::DownArrow.index(), key_down),
        0xF702 => process_slot(&mut keyboard.special_keys, SpecialKeys::LeftArrow.index(), key_down),
        0xF703 => process_slot(
            &mut keyboard.special_keys,
            SpecialKeys::RightArrow.index(),
            key_down,
        ),
        _ => {
            if 0xD800 <= u16_char && u16_char <= 0xDFFF {
                // An unpaired surrogate names no key.
            } else if u16_char == 0x20 {
                process_slot(&mut keyboard.special_keys, SpecialKeys::Space.index(), key_down);
            } else if 0x41 <= u16_char && u16_char <= 0x5A {
                process_slot(&mut keyboard.letter_keys, (u16_char - 0x41) as usize, key_down);
            } else if 0x61 <= u16_char && u16_char <= 0x7A {
                process_slot(&mut keyboard.letter_keys, (u16_char - 0x61) as usize, key_down);
            } else if 0x30 <= u16_char && u16_char <= 0x39 {
                process_slot(&mut keyboard.number_keys, (u16_char - 0x30) as usize, key_down);
            }
        },
    }
}

impl KeyboardInput {
    /// Whether letter key `key` ended the frame down.
    pub fn letter_down(&self, key: LetterKeys) -> (r: bool)
        ensures
            r == self.letter_keys@[key.spec_index()].ended_down,
    {
        self.letter_keys[key.index()].ended_down
    }
}

/// The cursor position and the five mouse buttons.
#[derive(Debug, Clone, Copy)]
pub struct MouseInput {
    pub x: i32,
    pub y: i32,
    pub buttons: [GameButtonState; 5],
}

/// The mouse button a Win32 message reports, as its position among the five
/// buttons (left, middle, right, first and second extra button), or -1;
/// `xbutton` is the high word of the message's `wParam`.
pub open spec fn win32_button_of(message: u32, xbutton: u16) -> int {
    if message == 0x0201 || message == 0x0202 {
        0
    } else if message == 0x0207 || message == 0x0208 {
        1
    } else if message == 0x0204 || message == 0x0205 {
        2
    } else if (message == 0x020B || message == 0x020C) && xbutton == 1 {
        3
    } else if (message == 0x020B || message == 0x020C) && xbutton == 2 {
        4
    } else {
        -1
    }
}

/// Whether a Win32 button message reports the button going down.
pub open spec fn win32_button_down(message: u32) -> bool {
    message == 0x0201 || message == 0x0207 || message == 0x0204 || message == 0x020B
}

/// Whether `message` is one of the mouse messages the window handles itself:
/// a move, or a button of the left, middle, right or extra buttons.
pub open spec fn win32_is_mouse_message(message: u32) -> bool {
    message == 0x0200 || message == 0x0201 || message == 0x0202 || message == 0x0204
        || message == 0x0205 || message == 0x0207 || message == 0x0208 || message == 0x020B
        || message == 0x020C
}

/// The Win32 button messages land on their buttons: left on the first,
/// middle on the second, right on the third, and the extra buttons named
/// `XBUTTON1` and `XBUTTON2` on the fourth and fifth; the `DOWN` messages
/// press and the `UP` messages release; an extra-button message naming
/// neither extra button lands nowhere.
pub proof fn lemma_win32_buttons(xbutton: u16)
    ensures
        win32_button_of(0x0201, xbutton) == 0 && win32_button_of(0x0202, xbutton) == 0,
        win32_button_of(0x0207, xbutton) == 1 && win32_button_of(0x0208, xbutton) == 1,
        win32_button_of(0x0204, xbutton) == 2 && win32_button_of(0x0205, xbutton) == 2,
        win32_button_of(0x020B, 1) == 3 && win32_button_of(0x020C, 1) == 3,
        win32_button_of(0x020B, 2) == 4 && win32_button_of(0x020C, 2) == 4,
        xbutton != 1 && xbutton != 2 ==> win32_button_of(0x020B, xbutton) < 0
            && win32_button_of(0x020C, xbutton) < 0,
        win32_button_down(0x0201) && win32_button_down(0x0207) && win32_button_down(0x0204)
            && win32_button_down(0x020B),
        !win32_button_down(0x0202) && !win32_button_down(0x0208) && !win32_button_down(0x0205)
            && !win32_button_down(0x020C),
        win32_is_mouse_message(0x0200) && !win32_is_mouse_message(0x0100),
{
}

/// Records a Win32 mouse message: a move (`WM_MOUSEMOVE`) sets the cursor to
/// the signed low and high words of `lparam`; a button message
/// (`WM_LBUTTON*`, `WM_MBUTTON*`, `WM_RBUTTON*`, `WM_XBUTTON*` with
/// `XBUTTON1` or `XBUTTON2` in the high word of `wparam`) is recorded on its
/// button. Returns whether `message` was a mouse message; any other message
/// changes nothing and is left for the window's own dispatch.
pub fn win32_process_mouse_message(
    mouse: &mut MouseInput,
    message: u32,
    wparam: usize,
    lparam: isize,
) -> (r: bool)
    requires
        0 <= win32_button_of(message, (wparam >> 16usize) as u16) ==> can_record(
            old(mouse).buttons@[win32_button_of(message, (wparam >> 16usize) as u16)],
            win32_button_down(message),
        ),
    ensures
        r == win32_is_mouse_message(message),
        message == 0x0200 ==> final(mouse).x == lparam as i16 as i32 && final(mouse).y == (lparam
            >> 16isize) as i16 as i32 && final(mouse).buttons == old(mouse).buttons,
        message != 0x0200 ==> final(mouse).x == old(mouse).x && final(mouse).y == old(mouse).y
            && final(mouse).buttons@ == keys_after(
            old(mouse).buttons@,
            win32_button_of(message, (wparam >> 16usize) as u16),
            win32_button_down(message),
        ),
{
    if message == 0x0200 {
        mouse.x = lparam as i16 as i32;
        mouse.y = (lparam >> 16isize) as i16 as i32;
        return true;
    }
    let xbutton = (wparam >> 16usize) as u16;
    let index: usize = if message == 0x0201 || message == 0x0202 {
        0
    } else if message == 0x0207 || message == 0x0208 {
        1
    } else if message == 0x0204 || message == 0x0205 {
        2
    } else if message == 0x020B || message == 0x020C {
        if xbutton == 1 {
            3
        } else if xbutton == 2 {
            4
        } else {
            assert(mouse.buttons@ == keys_after(old(mouse).buttons@, -1, win32_button_down(message)));
            return true;
        }
    } else {
        return false;
    };
    let is_down = message == 0x0201 || message == 0x0207 || message == 0x0204 || message == 0x020B;
    let mut state = mouse.buttons[index];
    osx_process_keyboard_message(&mut state, is_down);
    mouse.buttons[index] = state;
    assert(mouse.buttons@ =~= keys_after(old(mouse).buttons@, index as int, is_down));
    true
}

} // verus!
