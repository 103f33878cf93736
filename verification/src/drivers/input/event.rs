//! Input events (in the manner of evdev) and the US key layout.
use vstd::prelude::*;
use super::keycode;

verus! {

/// Input event (similar to Linux evdev)
#[derive(Debug, Clone, Copy, PartialEq, Eq, Structural)]
pub struct InputEvent {
    /// Timestamp (ticks since boot)
    pub timestamp: u64,
    /// Event type
    pub event_type: InputEventType,
    /// Event code (key code, axis, button)
    pub code: u16,
    /// Event value (1 = pressed, 0 = released, or axis value)
    pub value: i32,
}

impl InputEvent {
    /// A key press at `timestamp`
    pub fn key_press(code: u16, timestamp: u64) -> (e: InputEvent)
        ensures
            e == (InputEvent { timestamp, event_type: InputEventType::Key, code, value: 1 }),
    {
        InputEvent { timestamp, event_type: InputEventType::Key, code, value: 1 }
    }

    /// A key release at `timestamp`
    pub fn key_release(code: u16, timestamp: u64) -> (e: InputEvent)
        ensures
            e == (InputEvent { timestamp, event_type: InputEventType::Key, code, value: 0 }),
    {
        InputEvent { timestamp, event_type: InputEventType::Key, code, value: 0 }
    }

    /// A mouse button press at `timestamp`
    pub fn mouse_button_press(button: MouseButton, timestamp: u64) -> (e: InputEvent)
        ensures
            e == (InputEvent { timestamp, event_type: InputEventType::Key, code: button.spec_code(), value: 1 }),
    {
        InputEvent { timestamp, event_type: InputEventType::Key, code: button.code(), value: 1 }
    }

    /// A mouse button release at `timestamp`
    pub fn mouse_button_release(button: MouseButton, timestamp: u64) -> (e: InputEvent)
        ensures
            e == (InputEvent { timestamp, event_type: InputEventType::Key, code: button.spec_code(), value: 0 }),
    {
        InputEvent { timestamp, event_type: InputEventType::Key, code: button.code(), value: 0 }
    }

    /// A relative motion along `axis` by `delta` at `timestamp`
    pub fn rel_motion(axis: RelAxis, delta: i32, timestamp: u64) -> (e: InputEvent)
        ensures
            e == (InputEvent { timestamp, event_type: InputEventType::Relative, code: axis.spec_code(), value: delta }),
    {
        InputEvent { timestamp, event_type: InputEventType::Relative, code: axis.code(), value: delta }
    }

    /// An end-of-batch marker at `timestamp`
    pub fn sync(timestamp: u64) -> (e: InputEvent)
        ensures
            e == (InputEvent { timestamp, event_type: InputEventType::Sync, code: 0, value: 0 }),
    {
        InputEvent { timestamp, event_type: InputEventType::Sync, code: 0, value: 0 }
    }
}

/// Input event types
#[derive(Debug, Clone, Copy, PartialEq, Eq, Structural)]
pub enum InputEventType {
    /// Synchronization event (end of event batch)
    Sync,
    /// Key/button event
    Key,
    /// Relative movement (mouse)
    Relative,
    /// Absolute positioning (touchscreen)
    Absolute,
    /// Miscellaneous events
    Misc,
    /// LED state
    Led,
}

impl InputEventType {
    pub open spec fn spec_code(self) -> u16 {
        match self {
            InputEventType::Sync => 0x00,
            InputEventType::Key => 0x01,
            InputEventType::Relative => 0x02,
            InputEventType::Absolute => 0x03,
            InputEventType::Misc => 0x04,
            InputEventType::Led => 0x11,
        }
    }

    /// The type's number on the wire
    pub fn code(self) -> (c: u16)
        ensures
            c == self.spec_code(),
    {
        match self {
            InputEventType::Sync => 0x00,
            InputEventType::Key => 0x01,
            InputEventType::Relative => 0x02,
            InputEventType::Absolute => 0x03,
            InputEventType::Misc => 0x04,
            InputEventType::Led => 0x11,
        }
    }
}

/// Relative axis codes
#[derive(Debug, Clone, Copy, PartialEq, Eq, Structural)]
pub enum RelAxis {
    X,
    Y,
    Z,
    Wheel,
    HWheel,
}

impl RelAxis {
    pub open spec fn spec_code(self) -> u16 {
        match self {
            RelAxis::X => 0x00,
            RelAxis::Y => 0x01,
            RelAxis::Z => 0x02,
            RelAxis::Wheel => 0x08,
            RelAxis::HWheel => 0x06,
        }
    }

    /// The axis code
    pub fn code(self) -> (c: u16)
        ensures
            c == self.spec_code(),
    {
        match self {
            RelAxis::X => 0x00,
            RelAxis::Y => 0x01,
            RelAxis::Z => 0x02,
            RelAxis::Wheel => 0x08,
            RelAxis::HWheel => 0x06,
        }
    }
}

/// Mouse buttons
#[derive(Debug, Clone, Copy, PartialEq, Eq, Structural)]
pub enum MouseButton {
    Left,
    Right,
    Middle,
    Side,
    Extra,
}

impl MouseButton {
    pub open spec fn spec_code(self) -> u16 {
        match self {
            MouseButton::Left => 0x110,
            MouseButton::Right => 0x111,
            MouseButton::Middle => 0x112,
            MouseButton::Side => 0x113,
            MouseButton::Extra => 0x114,
        }
    }

    /// The button's key code
    pub fn code(self) -> (c: u16)
        ensures
            c == self.spec_code(),
    {
        match self {
            MouseButton::Left => 0x110,
            MouseButton::Right => 0x111,
            MouseButton::Middle => 0x112,
            MouseButton::Side => 0x113,
            MouseButton::Extra => 0x114,
        }
    }
}

/// The US layout: for a key code, the character it types without and with shift.
pub open spec fn us_key_chars(scancode: u16) -> Option<(char, char)> {
    match scancode {
        keycode::KEY_A => Some(('a', 'A')),
        keycode::KEY_B => Some(('b', 'B')),
        keycode::KEY_C => Some(('c', 'C')),
        keycode::KEY_D => Some(('d', 'D')),
        keycode::KEY_E => Some(('e', 'E')),
        keycode::KEY_F => Some(('f', 'F')),
        keycode::KEY_G => Some(('g', 'G')),
        keycode::KEY_H => Some(('h', 'H')),
        keycode::KEY_I => Some(('i', 'I')),
        keycode::KEY_J => Some(('j', 'J')),
        keycode::KEY_K => Some(('k', 'K')),
        keycode::KEY_L => Some(('l', 'L')),
        keycode::KEY_M => Some(('m', 'M')),
        keycode::KEY_N => Some(('n', 'N')),
        keycode::KEY_O => Some(('o', 'O')),
        keycode::KEY_P => Some(('p', 'P')),
        keycode::KEY_Q => Some(('q', 'Q')),
        keycode::KEY_R => Some(('r', 'R')),
        keycode::KEY_S => Some(('s', 'S')),
        keycode::KEY_T => Some(('t', 'T')),
        keycode::KEY_U => Some(('u', 'U')),
        keycode::KEY_V => Some(('v', 'V')),
        keycode::KEY_W => Some(('w', 'W')),
        keycode::KEY_X => Some(('x', 'X')),
        keycode::KEY_Y => Some(('y', 'Y')),
        keycode::KEY_Z => Some(('z', 'Z')),
        keycode::KEY_1 => Some(('1', '!')),
        keycode::KEY_2 => Some(('2', '@')),
        keycode::KEY_3 => Some(('3', '#')),
        keycode::KEY_4 => Some(('4', '$')),
        keycode::KEY_5 => Some(('5', '%')),
        keycode::KEY_6 => Some(('6', '^')),
        keycode::KEY_7 => Some(('7', '&')),
        keycode::KEY_8 => Some(('8', '*')),
        keycode::KEY_9 => Some(('9', '(')),
        keycode::KEY_0 => Some(('0', ')')),
        keycode::KEY_SPACE => Some((' ', ' ')),
        keycode::KEY_ENTER => Some(('\n', '\n')),
        keycode::KEY_TAB => Some(('\t', '\t')),
        keycode::KEY_MINUS => Some(('-', '_')),
        keycode::KEY_EQUAL => Some(('=', '+')),
        keycode::KEY_LEFTBRACE => Some(('[', '{')),
        keycode::KEY_RIGHTBRACE => Some((']', '}')),
        keycode::KEY_SEMICOLON => Some((';', ':')),
        keycode::KEY_APOSTROPHE => Some(('\'', '"')),
        keycode::KEY_GRAVE => Some(('`', '~')),
        keycode::KEY_BACKSLASH => Some(('\\', '|')),
        keycode::KEY_COMMA => Some((',', '<')),
        keycode::KEY_DOT => Some(('.', '>')),
        keycode::KEY_SLASH => Some(('/', '?')),
        _ => None,
    }
}

/// The key that types `c` unshifted, for the characters of the US layout.
spec fn key_of_char(c: char) -> Option<u16> {
    if false {
        None
    } else if c == 'a' {
        Some(keycode::KEY_A)
    } else if c == 'b' {
        Some(keycode::KEY_B)
    } else if c == 'c' {
        Some(keycode::KEY_C)
    } else if c == 'd' {
        Some(keycode::KEY_D)
    } else if c == 'e' {
        Some(keycode::KEY_E)
    } else if c == 'f' {
        Some(keycode::KEY_F)
    } else if c == 'g' {
        Some(keycode::KEY_G)
    } else if c == 'h' {
        Some(keycode::KEY_H)
    } else if c == 'i' {
        Some(keycode::KEY_I)
    } else if c == 'j' {
        Some(keycode::KEY_J)
    } else if c == 'k' {
        Some(keycode::KEY_K)
    } else if c == 'l' {
        Some(keycode::KEY_L)
    } else if c == 'm' {
        Some(keycode::KEY_M)
    } else if c == 'n' {
        Some(keycode::KEY_N)
    } else if c == 'o' {
        Some(keycode::KEY_O)
    } else if c == 'p' {
        Some(keycode::KEY_P)
    } else if c == 'q' {
        Some(keycode::KEY_Q)
    } else if c == 'r' {
        Some(keycode::KEY_R)
    } else if c == 's' {
        Some(keycode::KEY_S)
    } else if c == 't' {
        Some(keycode::KEY_T)
    } else if c == 'u' {
        Some(keycode::KEY_U)
    } else if c == 'v' {
        Some(keycode::KEY_V)
    } else if c == 'w' {
        Some(keycode::KEY_W)
    } else if c == 'x' {
        Some(keycode::KEY_X)
    } else if c == 'y' {
        Some(keycode::KEY_Y)
    } else if c == 'z' {
        Some(keycode::KEY_Z)
    } else if c == '1' {
        Some(keycode::KEY_1)
    } else if c == '2' {
        Some(keycode::KEY_2)
    } else if c == '3' {
        Some(keycode::KEY_3)
    } else if c == '4' {
        Some(keycode::KEY_4)
    } else if c == '5' {
        Some(keycode::KEY_5)
    } else if c == '6' {
        Some(keycode::KEY_6)
    } else if c == '7' {
        Some(keycode::KEY_7)
    } else if c == '8' {
        Some(keycode::KEY_8)
    } else if c == '9' {
        Some(keycode::KEY_9)
    } else if c == '0' {
        Some(keycode::KEY_0)
    } else if c == ' ' {
        Some(keycode::KEY_SPACE)
    } else if c == '\n' {
        Some(keycode::KEY_ENTER)
    } else if c == '\t' {
        Some(keycode::KEY_TAB)
    } else if c == '-' {
        Some(keycode::KEY_MINUS)
    } else if c == '=' {
        Some(keycode::KEY_EQUAL)
    } else if c == '[' {
        Some(keycode::KEY_LEFTBRACE)
    } else if c == ']' {
        Some(keycode::KEY_RIGHTBRACE)
    } else if c == ';' {
        Some(keycode::KEY_SEMICOLON)
    } else if c == '\'' {
        Some(keycode::KEY_APOSTROPHE)
    } else if c == '`' {
        Some(keycode::KEY_GRAVE)
    } else if c == '\\' {
        Some(keycode::KEY_BACKSLASH)
    } else if c == ',' {
        Some(keycode::KEY_COMMA)
    } else if c == '.' {
        Some(keycode::KEY_DOT)
    } else if c == '/' {
        Some(keycode::KEY_SLASH)
    } else {
        None
    }
}

/// The key that types `c` shifted, for the characters of the US layout.
spec fn key_of_shifted(c: char) -> Option<u16> {
    if false {
        None
    } else if c == 'A' {
        Some(keycode::KEY_A)
    } else if c == 'B' {
        Some(keycode::KEY_B)
    } else if c == 'C' {
        Some(keycode::KEY_C)
    } else if c == 'D' {
        Some(keycode::KEY_D)
    } else if c == 'E' {
        Some(keycode::KEY_E)
    } else if c == 'F' {
        Some(keycode::KEY_F)
    } else if c == 'G' {
        Some(keycode::KEY_G)
    } else if c == 'H' {
        Some(keycode::KEY_H)
    } else if c == 'I' {
        Some(keycode::KEY_I)
    } else if c == 'J' {
        Some(keycode::KEY_J)
    } else if c == 'K' {
        Some(keycode::KEY_K)
    } else if c == 'L' {
        Some(keycode::KEY_L)
    } else if c == 'M' {
        Some(keycode::KEY_M)
    } else if c == 'N' {
        Some(keycode::KEY_N)
    } else if c == 'O' {
        Some(keycode::KEY_O)
    } else if c == 'P' {
        Some(keycode::KEY_P)
    } else if c == 'Q' {
        Some(keycode::KEY_Q)
    } else if c == 'R' {
        Some(keycode::KEY_R)
    } else if c == 'S' {
        Some(keycode::KEY_S)
    } else if c == 'T' {
        Some(keycode::KEY_T)
    } else if c == 'U' {
        Some(keycode::KEY_U)
    } else if c == 'V' {
        Some(keycode::KEY_V)
    } else if c == 'W' {
        Some(keycode::KEY_W)
    } else if c == 'X' {
        Some(keycode::KEY_X)
    } else if c == 'Y' {
        Some(keycode::KEY_Y)
    } else if c == 'Z' {
        Some(keycode::KEY_Z)
    } else if c == '!' {
        Some(keycode::KEY_1)
    } else if c == '@' {
        Some(keycode::KEY_2)
    } else if c == '#' {
        Some(keycode::KEY_3)
    } else if c == '$' {
        Some(keycode::KEY_4)
    } else if c == '%' {
        Some(keycode::KEY_5)
    } else if c == '^' {
        Some(keycode::KEY_6)
    } else if c == '&' {
        Some(keycode::KEY_7)
    } else if c == '*' {
        Some(keycode::KEY_8)
    } else if c == '(' {
        Some(keycode::KEY_9)
    } else if c == ')' {
        Some(keycode::KEY_0)
    } else if c == ' ' {
        Some(keycode::KEY_SPACE)
    } else if c == '\n' {
        Some(keycode::KEY_ENTER)
    } else if c == '\t' {
        Some(keycode::KEY_TAB)
    } else if c == '_' {
        Some(keycode::KEY_MINUS)
    } else if c == '+' {
        Some(keycode::KEY_EQUAL)
    } else if c == '{' {
        Some(keycode::KEY_LEFTBRACE)
    } else if c == '}' {
        Some(keycode::KEY_RIGHTBRACE)
    } else if c == ':' {
        Some(keycode::KEY_SEMICOLON)
    } else if c == '"' {
        Some(keycode::KEY_APOSTROPHE)
    } else if c == '~' {
        Some(keycode::KEY_GRAVE)
    } else if c == '|' {
        Some(keycode::KEY_BACKSLASH)
    } else if c == '<' {
        Some(keycode::KEY_COMMA)
    } else if c == '>' {
        Some(keycode::KEY_DOT)
    } else if c == '?' {
        Some(keycode::KEY_SLASH)
    } else {
        None
    }
}

/// A key types its characters on no other key.
proof fn lemma_key_of_char(k: u16)
    ensures
        us_key_chars(k) matches Some((l, u)) ==> key_of_char(l) == Some(k) && key_of_shifted(u) == Some(k),
{
}

/// No two keys type the same character: the US layout is one to one, unshifted
/// and shifted alike.
pub proof fn law_keys_distinct(k1: u16, k2: u16)
    requires
        k1 != k2,
        us_key_chars(k1) is Some,
        us_key_chars(k2) is Some,
    ensures
        us_key_chars(k1).unwrap().0 != us_key_chars(k2).unwrap().0,
        us_key_chars(k1).unwrap().1 != us_key_chars(k2).unwrap().1,
{
    lemma_key_of_char(k1);
    lemma_key_of_char(k2);
}

/// Some key types the letter `c`, and with shift its upper case.
pub open spec fn letter_typed(c: char) -> bool {
    exists|key: u16| #[trigger] us_key_chars(key) == Some((c, ((c as u32) - 32) as char))
}

/// A letter key types its lower-case letter, and with shift the same letter in
/// upper case; the 26 letter keys type the 26 letters.
pub proof fn law_letter_keys(k: u16)
    ensures
        us_key_chars(k) matches Some((l, u)) ==> ('a' <= l <= 'z' ==> (u as u32) == (l as u32) - 32),
        forall|c: char| 'a' <= c <= 'z' ==> #[trigger] letter_typed(c),
{
    assert forall|c: char| 'a' <= c <= 'z' implies #[trigger] letter_typed(c) by {
        let key = key_of_char(c)->0;
        assert(us_key_chars(key) == Some((c, ((c as u32) - 32) as char)));
    }
}

/// The letter keys type the letters they are named after.
pub proof fn law_named_letter_keys()
    ensures
        us_key_chars(keycode::KEY_A) == Some(('a', 'A')),
        us_key_chars(keycode::KEY_B) == Some(('b', 'B')),
        us_key_chars(keycode::KEY_C) == Some(('c', 'C')),
        us_key_chars(keycode::KEY_D) == Some(('d', 'D')),
        us_key_chars(keycode::KEY_E) == Some(('e', 'E')),
        us_key_chars(keycode::KEY_F) == Some(('f', 'F')),
        us_key_chars(keycode::KEY_G) == Some(('g', 'G')),
        us_key_chars(keycode::KEY_H) == Some(('h', 'H')),
        us_key_chars(keycode::KEY_I) == Some(('i', 'I')),
        us_key_chars(keycode::KEY_J) == Some(('j', 'J')),
        us_key_chars(keycode::KEY_K) == Some(('k', 'K')),
        us_key_chars(keycode::KEY_L) == Some(('l', 'L')),
        us_key_chars(keycode::KEY_M) == Some(('m', 'M')),
        us_key_chars(keycode::KEY_N) == Some(('n', 'N')),
        us_key_chars(keycode::KEY_O) == Some(('o', 'O')),
        us_key_chars(keycode::KEY_P) == Some(('p', 'P')),
        us_key_chars(keycode::KEY_Q) == Some(('q', 'Q')),
        us_key_chars(keycode::KEY_R) == Some(('r', 'R')),
        us_key_chars(keycode::KEY_S) == Some(('s', 'S')),
        us_key_chars(keycode::KEY_T) == Some(('t', 'T')),
        us_key_chars(keycode::KEY_U) == Some(('u', 'U')),
        us_key_chars(keycode::KEY_V) == Some(('v', 'V')),
        us_key_chars(keycode::KEY_W) == Some(('w', 'W')),
        us_key_chars(keycode::KEY_X) == Some(('x', 'X')),
        us_key_chars(keycode::KEY_Y) == Some(('y', 'Y')),
        us_key_chars(keycode::KEY_Z) == Some(('z', 'Z')),
{
}

/// Convert scancode to ASCII (simple US layout)
pub fn scancode_to_ascii(scancode: u16, shift: bool) -> (r: Option<char>)
    ensures
        r == (match us_key_chars(scancode) {
            Some((lower, upper)) => Some(if shift { upper } else { lower }),
            None => None,
        }),
{
    let c = match scancode {
        keycode::KEY_A => if shift { 'A' } else { 'a' },
        keycode::KEY_B => if shift { 'B' } else { 'b' },
        keycode::KEY_C => if shift { 'C' } else { 'c' },
        keycode::KEY_D => if shift { 'D' } else { 'd' },
        keycode::KEY_E => if shift { 'E' } else { 'e' },
        keycode::KEY_F => if shift { 'F' } else { 'f' },
        keycode::KEY_G => if shift { 'G' } else { 'g' },
        keycode::KEY_H => if shift { 'H' } else { 'h' },
        keycode::KEY_I => if shift { 'I' } else { 'i' },
        keycode::KEY_J => if shift { 'J' } else { 'j' },
        keycode::KEY_K => if shift { 'K' } else { 'k' },
        keycode::KEY_L => if shift { 'L' } else { 'l' },
        keycode::KEY_M => if shift { 'M' } else { 'm' },
        keycode::KEY_N => if shift { 'N' } else { 'n' },
        keycode::KEY_O => if shift { 'O' } else { 'o' },
        keycode::KEY_P => if shift { 'P' } else { 'p' },
        keycode::KEY_Q => if shift { 'Q' } else { 'q' },
        keycode::KEY_R => if shift { 'R' } else { 'r' },
        keycode::KEY_S => if shift { 'S' } else { 's' },
        keycode::KEY_T => if shift { 'T' } else { 't' },
        keycode::KEY_U => if shift { 'U' } else { 'u' },
        keycode::KEY_V => if shift { 'V' } else { 'v' },
        keycode::KEY_W => if shift { 'W' } else { 'w' },
        keycode::KEY_X => if shift { 'X' } else { 'x' },
        keycode::KEY_Y => if shift { 'Y' } else { 'y' },
        keycode::KEY_Z => if shift { 'Z' } else { 'z' },
        keycode::KEY_1 => if shift { '!' } else { '1' },
        keycode::KEY_2 => if shift { '@' } else { '2' },
        keycode::KEY_3 => if shift { '#' } else { '3' },
        keycode::KEY_4 => if shift { '$' } else { '4' },
        keycode::KEY_5 => if shift { '%' } else { '5' },
        keycode::KEY_6 => if shift { '^' } else { '6' },
        keycode::KEY_7 => if shift { '&' } else { '7' },
        keycode::KEY_8 => if shift { '*' } else { '8' },
        keycode::KEY_9 => if shift { '(' } else { '9' },
        keycode::KEY_0 => if shift { ')' } else { '0' },
        keycode::KEY_SPACE => ' ',
        keycode::KEY_ENTER => '\n',
        keycode::KEY_TAB => '\t',
        keycode::KEY_MINUS => if shift { '_' } else { '-' },
        keycode::KEY_EQUAL => if shift { '+' } else { '=' },
        keycode::KEY_LEFTBRACE => if shift { '{' } else { '[' },
        keycode::KEY_RIGHTBRACE => if shift { '}' } else { ']' },
        keycode::KEY_SEMICOLON => if shift { ':' } else { ';' },
        keycode::KEY_APOSTROPHE => if shift { '"' } else { '\'' },
        keycode::KEY_GRAVE => if shift { '~' } else { '`' },
        keycode::KEY_BACKSLASH => if shift { '|' } else { '\\' },
        keycode::KEY_COMMA => if shift { '<' } else { ',' },
        keycode::KEY_DOT => if shift { '>' } else { '.' },
        keycode::KEY_SLASH => if shift { '?' } else { '/' },
        _ => {
            return None;
        },
    };
    Some(c)
}

} // verus!
