//! Keyboard state: modifier and lock keys, and PS/2 scancode translation.
use vstd::prelude::*;
use super::keycode;
use super::event::{InputEvent, InputEventType, scancode_to_ascii, us_key_chars};
use super::{InputSystem, InputDeviceType, queue_event, queued, register_device, poll_event};

verus! {

/// Keyboard state
#[derive(Debug, Clone, Copy, PartialEq, Eq, Structural)]
pub struct Keyboard {
    /// Shift key state
    pub shift: bool,
    /// Control key state
    pub ctrl: bool,
    /// Alt key state
    pub alt: bool,
    /// Caps Lock state
    pub caps_lock: bool,
    /// Num Lock state
    pub num_lock: bool,
    /// Scroll Lock state
    pub scroll_lock: bool,
}

/// The keyboard's state after a key goes down (`pressed`) or up: a shift, control or
/// alt key follows the key; a lock key toggles its lock when pressed.
pub open spec fn key_state_after(k: Keyboard, scancode: u16, pressed: bool) -> Keyboard {
    if scancode == keycode::KEY_LEFTSHIFT || scancode == keycode::KEY_RIGHTSHIFT {
        Keyboard { shift: pressed, ..k }
    } else if scancode == keycode::KEY_LEFTCTRL || scancode == keycode::KEY_RIGHTCTRL {
        Keyboard { ctrl: pressed, ..k }
    } else if scancode == keycode::KEY_LEFTALT || scancode == keycode::KEY_RIGHTALT {
        Keyboard { alt: pressed, ..k }
    } else if scancode == keycode::KEY_CAPSLOCK && pressed {
        Keyboard { caps_lock: !k.caps_lock, ..k }
    } else if scancode == keycode::KEY_NUMLOCK && pressed {
        Keyboard { num_lock: !k.num_lock, ..k }
    } else if scancode == keycode::KEY_SCROLLLOCK && pressed {
        Keyboard { scroll_lock: !k.scroll_lock, ..k }
    } else {
        k
    }
}

/// Shift, control and alt follow their keys (either side) and touch nothing else; a
/// lock key toggles its lock on a press and nothing on a release, so a press and
/// release twice over restores it; a key that types a character leaves the state as
/// it was.
pub proof fn law_modifier_keys(k: Keyboard, sc: u16, pressed: bool)
    ensures
        key_state_after(k, keycode::KEY_LEFTSHIFT, pressed) == (Keyboard { shift: pressed, ..k }),
        key_state_after(k, keycode::KEY_RIGHTSHIFT, pressed) == (Keyboard { shift: pressed, ..k }),
        key_state_after(k, keycode::KEY_LEFTCTRL, pressed) == (Keyboard { ctrl: pressed, ..k }),
        key_state_after(k, keycode::KEY_RIGHTCTRL, pressed) == (Keyboard { ctrl: pressed, ..k }),
        key_state_after(k, keycode::KEY_LEFTALT, pressed) == (Keyboard { alt: pressed, ..k }),
        key_state_after(k, keycode::KEY_RIGHTALT, pressed) == (Keyboard { alt: pressed, ..k }),
        key_state_after(k, keycode::KEY_CAPSLOCK, true) == (Keyboard { caps_lock: !k.caps_lock, ..k }),
        key_state_after(k, keycode::KEY_CAPSLOCK, false) == k,
        key_state_after(k, keycode::KEY_NUMLOCK, true) == (Keyboard { num_lock: !k.num_lock, ..k }),
        key_state_after(k, keycode::KEY_NUMLOCK, false) == k,
        key_state_after(k, keycode::KEY_SCROLLLOCK, true) == (Keyboard { scroll_lock: !k.scroll_lock, ..k }),
        key_state_after(k, keycode::KEY_SCROLLLOCK, false) == k,
        key_state_after(key_state_after(key_state_after(key_state_after(k, keycode::KEY_CAPSLOCK, true),
            keycode::KEY_CAPSLOCK, false), keycode::KEY_CAPSLOCK, true), keycode::KEY_CAPSLOCK, false) == k,
        us_key_chars(sc) is Some ==> key_state_after(k, sc, pressed) == k,
{
}

/// A key that types a character keeps its number through PS/2 translation, and any
/// scancode translates to itself or to the reserved code.
pub proof fn law_ps2_translation(sc: u16)
    ensures
        ps2_keycode(sc) == sc || ps2_keycode(sc) == keycode::KEY_RESERVED,
        us_key_chars(sc) is Some ==> ps2_keycode(sc) == sc,
{
}

/// The event a key going down or up produces.
pub open spec fn key_event(scancode: u16, pressed: bool, timestamp: u64) -> InputEvent {
    InputEvent { timestamp, event_type: InputEventType::Key, code: scancode, value: if pressed { 1 } else { 0 } }
}

impl Keyboard {
    /// No modifier held, no lock on.
    pub fn new() -> (k: Keyboard)
        ensures
            k == (Keyboard { shift: false, ctrl: false, alt: false, caps_lock: false, num_lock: false, scroll_lock: false }),
    {
        Keyboard { shift: false, ctrl: false, alt: false, caps_lock: false, num_lock: false, scroll_lock: false }
    }

    /// Handle a key going down (`pressed`) or up at `timestamp`: update the modifiers
    /// and queue the key event.
    pub fn handle_key(&mut self, input: &mut InputSystem, scancode: u16, pressed: bool, timestamp: u64)
        ensures
            *final(self) == key_state_after(*old(self), scancode, pressed),
            final(input).queue@ == queued(old(input).queue@, key_event(scancode, pressed, timestamp)),
            final(input).devices@ == old(input).devices@,
    {
        if scancode == keycode::KEY_LEFTSHIFT || scancode == keycode::KEY_RIGHTSHIFT {
            self.shift = pressed;
        } else if scancode == keycode::KEY_LEFTCTRL || scancode == keycode::KEY_RIGHTCTRL {
            self.ctrl = pressed;
        } else if scancode == keycode::KEY_LEFTALT || scancode == keycode::KEY_RIGHTALT {
            self.alt = pressed;
        } else if scancode == keycode::KEY_CAPSLOCK && pressed {
            self.caps_lock = !self.caps_lock;
        } else if scancode == keycode::KEY_NUMLOCK && pressed {
            self.num_lock = !self.num_lock;
        } else if scancode == keycode::KEY_SCROLLLOCK && pressed {
            self.scroll_lock = !self.scroll_lock;
        }
        let event = if pressed {
            InputEvent::key_press(scancode, timestamp)
        } else {
            InputEvent::key_release(scancode, timestamp)
        };
        queue_event(input, event);
    }

    /// Whether shift is in effect for letters: shift or caps lock, not both (other
    /// keys follow shift alone)
    pub fn is_shifted(&self) -> (b: bool)
        ensures
            b == (self.shift != self.caps_lock),
    {
        self.shift ^ self.caps_lock
    }
}

/// Keyboard layout
#[derive(Debug, Clone, Copy, PartialEq, Eq, Structural)]
pub enum KeyboardLayout {
    UsQwerty,
    UkQwerty,
    Dvorak,
}

impl Default for KeyboardLayout {
    fn default() -> (l: KeyboardLayout)
        ensures
            l == KeyboardLayout::UsQwerty,
    {
        KeyboardLayout::UsQwerty
    }
}

/// Register the keyboard as an input device
pub fn init(input: &mut InputSystem)
    ensures
        final(input).devices@.len() == old(input).devices@.len() + 1,
        final(input).devices@.subrange(0, old(input).devices@.len() as int) == old(input).devices@,
        final(input).devices@.last().id == old(input).devices@.len() as u32,
        final(input).devices@.last().name@ == "keyboard0"@,
        final(input).devices@.last().device_type == InputDeviceType::Keyboard,
        final(input).queue@ == old(input).queue@,
{
    register_device(input, "keyboard0", InputDeviceType::Keyboard);
}

/// The key code a PS/2 set 1 make code stands for: in this set the numbers agree for
/// every key translated; the rest (and the keypad asterisk) give `keycode::KEY_RESERVED`.
pub open spec fn ps2_keycode(scancode: u16) -> u16 {
    if (0x01 <= scancode <= 0x36) || (0x38 <= scancode <= 0x46) || scancode == 0x57 || scancode == 0x58 {
        scancode
    } else {
        keycode::KEY_RESERVED
    }
}

/// Convert PS/2 scancode set 1 to our key codes
pub fn ps2_to_keycode(scancode: u16) -> (k: u16)
    ensures
        k == ps2_keycode(scancode),
{
    match scancode {
        0x01 => keycode::KEY_ESC,
        0x02 => keycode::KEY_1,
        0x03 => keycode::KEY_2,
        0x04 => keycode::KEY_3,
        0x05 => keycode::KEY_4,
        0x06 => keycode::KEY_5,
        0x07 => keycode::KEY_6,
        0x08 => keycode::KEY_7,
        0x09 => keycode::KEY_8,
        0x0A => keycode::KEY_9,
        0x0B => keycode::KEY_0,
        0x0C => keycode::KEY_MINUS,
        0x0D => keycode::KEY_EQUAL,
        0x0E => keycode::KEY_BACKSPACE,
        0x0F => keycode::KEY_TAB,
        0x10 => keycode::KEY_Q,
        0x11 => keycode::KEY_W,
        0x12 => keycode::KEY_E,
        0x13 => keycode::KEY_R,
        0x14 => keycode::KEY_T,
        0x15 => keycode::KEY_Y,
        0x16 => keycode::KEY_U,
        0x17 => keycode::KEY_I,
        0x18 => keycode::KEY_O,
        0x19 => keycode::KEY_P,
        0x1A => keycode::KEY_LEFTBRACE,
        0x1B => keycode::KEY_RIGHTBRACE,
        0x1C => keycode::KEY_ENTER,
        0x1D => keycode::KEY_LEFTCTRL,
        0x1E => keycode::KEY_A,
        0x1F => keycode::KEY_S,
        0x20 => keycode::KEY_D,
        0x21 => keycode::KEY_F,
        0x22 => keycode::KEY_G,
        0x23 => keycode::KEY_H,
        0x24 => keycode::KEY_J,
        0x25 => keycode::KEY_K,
        0x26 => keycode::KEY_L,
        0x27 => keycode::KEY_SEMICOLON,
        0x28 => keycode::KEY_APOSTROPHE,
        0x29 => keycode::KEY_GRAVE,
        0x2A => keycode::KEY_LEFTSHIFT,
        0x2B => keycode::KEY_BACKSLASH,
        0x2C => keycode::KEY_Z,
        0x2D => keycode::KEY_X,
        0x2E => keycode::KEY_C,
        0x2F => keycode::KEY_V,
        0x30 => keycode::KEY_B,
        0x31 => keycode::KEY_N,
        0x32 => keycode::KEY_M,
        0x33 => keycode::KEY_COMMA,
        0x34 => keycode::KEY_DOT,
        0x35 => keycode::KEY_SLASH,
        0x36 => keycode::KEY_RIGHTSHIFT,
        0x38 => keycode::KEY_LEFTALT,
        0x39 => keycode::KEY_SPACE,
        0x3A => keycode::KEY_CAPSLOCK,
        0x3B => keycode::KEY_F1,
        0x3C => keycode::KEY_F2,
        0x3D => keycode::KEY_F3,
        0x3E => keycode::KEY_F4,
        0x3F => keycode::KEY_F5,
        0x40 => keycode::KEY_F6,
        0x41 => keycode::KEY_F7,
        0x42 => keycode::KEY_F8,
        0x43 => keycode::KEY_F9,
        0x44 => keycode::KEY_F10,
        0x45 => keycode::KEY_NUMLOCK,
        0x46 => keycode::KEY_SCROLLLOCK,
        0x57 => keycode::KEY_F11,
        0x58 => keycode::KEY_F12,
        _ => keycode::KEY_RESERVED,
    }
}

/// Handle a keyboard interrupt: bit 7 of the scancode marks a release; a code that
/// translates to a key goes to [`Keyboard::handle_key`], any other is ignored.
pub fn handle_interrupt(kbd: &mut Keyboard, input: &mut InputSystem, scancode: u8, timestamp: u64)
    ensures
        ({
            let pressed = scancode < 0x80;
            let key = ps2_keycode((scancode % 0x80) as u16);
            if key != keycode::KEY_RESERVED {
                &&& *final(kbd) == key_state_after(*old(kbd), key, pressed)
                &&& final(input).queue@ == queued(old(input).queue@, key_event(key, pressed, timestamp))
            } else {
                &&& *final(kbd) == *old(kbd)
                &&& final(input).queue@ == old(input).queue@
            }
        }),
        final(input).devices@ == old(input).devices@,
{
    let pressed = (scancode & 0x80) == 0;
    let code = (scancode & 0x7F) as u16;
    assert((((scancode & 0x80) == 0) == (scancode < 0x80)) && ((scancode & 0x7F) == scancode % 0x80)) by (bit_vector);
    let key = ps2_to_keycode(code);
    if key != keycode::KEY_RESERVED {
        kbd.handle_key(input, key, pressed, timestamp);
    }
}

/// Take the next event; for a key press, the character it types: a letter in
/// upper case when shift or caps lock (not both) is on, any other key shifted when
/// shift is down
pub fn read_char(kbd: &Keyboard, input: &mut InputSystem) -> (r: Option<char>)
    ensures
        old(input).queue@.len() == 0 ==> r is None && final(input).queue@ == old(input).queue@,
        old(input).queue@.len() > 0 ==> final(input).queue@ == old(input).queue@.subrange(1, old(input).queue@.len() as int)
            && ({
                let e = old(input).queue@[0];
                r == if e.event_type == InputEventType::Key && e.value == 1 {
                    match us_key_chars(e.code) {
                        Some((lower, upper)) => Some(
                            if ('a' <= lower && lower <= 'z' && kbd.shift != kbd.caps_lock) || (!('a' <= lower
                                && lower <= 'z') && kbd.shift) {
                                upper
                            } else {
                                lower
                            },
                        ),
                        None => None,
                    }
                } else {
                    None::<char>
                }
            }),
        final(input).devices@ == old(input).devices@,
{
    match poll_event(input) {
        Some(event) => {
            if event.event_type == InputEventType::Key && event.value == 1 {
                let letter = match scancode_to_ascii(event.code, false) {
                    Some(c) => 'a' <= c && c <= 'z',
                    None => false,
                };
                let shifted = if letter { kbd.is_shifted() } else { kbd.shift };
                scancode_to_ascii(event.code, shifted)
            } else {
                None
            }
        },
        None => None,
    }
}

} // verus!
