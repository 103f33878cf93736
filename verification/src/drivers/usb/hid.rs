//! USB HID (human interface device) class: boot-protocol keyboard and mouse
//! reports, turned into input events, and the registry of HID devices.
use vstd::prelude::*;
use super::{UsbDevice, UsbClass, UsbRegistry, of_class};
use crate::drivers::input::{InputSystem, queue_event, queued_all, lemma_queued_all_append, lemma_queued_all_one};
use crate::drivers::input::event::{InputEvent, InputEventType};
use crate::drivers::input::keycode;

verus! {

/// HID subclass: none
pub const SUBCLASS_NONE: u8 = 0;
/// HID subclass: boot interface
pub const SUBCLASS_BOOT: u8 = 1;

/// HID protocol: none
pub const PROTOCOL_NONE: u8 = 0;
/// HID protocol: keyboard
pub const PROTOCOL_KEYBOARD: u8 = 1;
/// HID protocol: mouse
pub const PROTOCOL_MOUSE: u8 = 2;

/// HID class request: GET_REPORT
pub const GET_REPORT: u8 = 0x01;
/// HID class request: GET_IDLE
pub const GET_IDLE: u8 = 0x02;
/// HID class request: GET_PROTOCOL
pub const GET_PROTOCOL: u8 = 0x03;
/// HID class request: SET_REPORT
pub const SET_REPORT: u8 = 0x09;
/// HID class request: SET_IDLE
pub const SET_IDLE: u8 = 0x0A;
/// HID class request: SET_PROTOCOL
pub const SET_PROTOCOL: u8 = 0x0B;

/// HID report type: input
pub const REPORT_INPUT: u8 = 1;
/// HID report type: output
pub const REPORT_OUTPUT: u8 = 2;
/// HID report type: feature
pub const REPORT_FEATURE: u8 = 3;

/// Boot protocol keyboard report (8 bytes)
#[derive(Debug, Clone, Copy)]
pub struct BootKeyboardReport {
    /// Modifier keys (Ctrl, Shift, Alt, GUI)
    pub modifiers: u8,
    /// Reserved byte
    pub reserved: u8,
    /// Key codes (up to 6 simultaneous keys)
    pub keys: [u8; 6],
}

impl BootKeyboardReport {
    /// A report with no key and no modifier down
    pub fn empty() -> (r: BootKeyboardReport)
        ensures
            r.modifiers == 0,
            r.reserved == 0,
            r.keys@ == seq![0u8, 0, 0, 0, 0, 0],
    {
        let r = BootKeyboardReport { modifiers: 0, reserved: 0, keys: [0u8; 6] };
        assert(r.keys@ =~= seq![0u8, 0, 0, 0, 0, 0]);
        r
    }

    /// Check if left Ctrl is pressed
    pub fn left_ctrl(&self) -> (b: bool)
        ensures
            b == (self.modifiers & 0x01 != 0),
    {
        self.modifiers & 0x01 != 0
    }

    /// Check if left Shift is pressed
    pub fn left_shift(&self) -> (b: bool)
        ensures
            b == (self.modifiers & 0x02 != 0),
    {
        self.modifiers & 0x02 != 0
    }

    /// Check if left Alt is pressed
    pub fn left_alt(&self) -> (b: bool)
        ensures
            b == (self.modifiers & 0x04 != 0),
    {
        self.modifiers & 0x04 != 0
    }

    /// Check if left GUI (Windows/Command) is pressed
    pub fn left_gui(&self) -> (b: bool)
        ensures
            b == (self.modifiers & 0x08 != 0),
    {
        self.modifiers & 0x08 != 0
    }

    /// Check if right Ctrl is pressed
    pub fn right_ctrl(&self) -> (b: bool)
        ensures
            b == (self.modifiers & 0x10 != 0),
    {
        self.modifiers & 0x10 != 0
    }

    /// Check if right Shift is pressed
    pub fn right_shift(&self) -> (b: bool)
        ensures
            b == (self.modifiers & 0x20 != 0),
    {
        self.modifiers & 0x20 != 0
    }

    /// Check if right Alt is pressed
    pub fn right_alt(&self) -> (b: bool)
        ensures
            b == (self.modifiers & 0x40 != 0),
    {
        self.modifiers & 0x40 != 0
    }

    /// Check if right GUI is pressed
    pub fn right_gui(&self) -> (b: bool)
        ensures
            b == (self.modifiers & 0x80 != 0),
    {
        self.modifiers & 0x80 != 0
    }

    /// Check if any Ctrl is pressed
    pub fn ctrl(&self) -> (b: bool)
        ensures
            b == (self.modifiers & 0x01 != 0 || self.modifiers & 0x10 != 0),
    {
        self.left_ctrl() || self.right_ctrl()
    }

    /// Check if any Shift is pressed
    pub fn shift(&self) -> (b: bool)
        ensures
            b == (self.modifiers & 0x02 != 0 || self.modifiers & 0x20 != 0),
    {
        self.left_shift() || self.right_shift()
    }

    /// Check if any Alt is pressed
    pub fn alt(&self) -> (b: bool)
        ensures
            b == (self.modifiers & 0x04 != 0 || self.modifiers & 0x40 != 0),
    {
        self.left_alt() || self.right_alt()
    }
}

/// Boot protocol mouse report (3+ bytes)
#[derive(Debug, Clone, Copy)]
pub struct BootMouseReport {
    /// Button state (bit 0 = left, bit 1 = right, bit 2 = middle)
    pub buttons: u8,
    /// X movement (signed)
    pub x: i8,
    /// Y movement (signed)
    pub y: i8,
}

impl BootMouseReport {
    /// Left button state (bit 0)
    pub fn left_button(&self) -> (b: bool)
        ensures
            b == (self.buttons & 0x01 != 0),
    {
        self.buttons & 0x01 != 0
    }

    /// Right button state (bit 1)
    pub fn right_button(&self) -> (b: bool)
        ensures
            b == (self.buttons & 0x02 != 0),
    {
        self.buttons & 0x02 != 0
    }

    /// Middle button state (bit 2)
    pub fn middle_button(&self) -> (b: bool)
        ensures
            b == (self.buttons & 0x04 != 0),
    {
        self.buttons & 0x04 != 0
    }
}

/// USB HID device
pub struct HidDevice {
    /// USB device info
    pub usb_device: UsbDevice,
    /// HID protocol (keyboard or mouse)
    pub protocol: u8,
    /// Interface number
    pub interface: u8,
    /// Endpoint address for interrupt IN
    pub endpoint: u8,
    /// Report length
    pub report_length: u8,
    /// Last keyboard report (for key release detection)
    pub last_keyboard_report: BootKeyboardReport,
    /// Last mouse buttons (for button release detection)
    pub last_mouse_buttons: u8,
}

/// A key event: `value` 1 for down, 0 for up.
pub open spec fn key_ev(code: u16, value: i32, timestamp: u64) -> InputEvent {
    InputEvent { timestamp, event_type: InputEventType::Key, code, value }
}

/// One event with `value` for each nonzero key of `keys` (in order) that `other` lacks.
pub open spec fn key_change_events(keys: Seq<u8>, other: Seq<u8>, value: i32, timestamp: u64) -> Seq<InputEvent>
    decreases keys.len(),
{
    if keys.len() == 0 {
        Seq::empty()
    } else {
        let k = keys.last();
        key_change_events(keys.drop_last(), other, value, timestamp)
            + (if k != 0 && !other.contains(k) { seq![key_ev(k as u16, value, timestamp)] } else { Seq::empty() })
    }
}

/// The modifier bit of position `i` (0 to 7), left Ctrl first.
pub open spec fn modifier_mask(i: int) -> u8 {
    if i == 0 { 0x01 } else if i == 1 { 0x02 } else if i == 2 { 0x04 } else if i == 3 { 0x08 }
    else if i == 4 { 0x10 } else if i == 5 { 0x20 } else if i == 6 { 0x40 } else { 0x80 }
}

/// The key code of the modifier at position `i`: left Ctrl, Shift, Alt, GUI, then the right ones.
pub open spec fn modifier_code(i: int) -> u16 {
    if i == 0 { keycode::KEY_LEFTCTRL } else if i == 1 { keycode::KEY_LEFTSHIFT }
    else if i == 2 { keycode::KEY_LEFTALT } else if i == 3 { keycode::KEY_LEFTMETA }
    else if i == 4 { keycode::KEY_RIGHTCTRL } else if i == 5 { keycode::KEY_RIGHTSHIFT }
    else if i == 6 { keycode::KEY_RIGHTALT } else { keycode::KEY_RIGHTMETA }
}

/// The event for modifier `i` if it changed between `old_mods` and `new_mods`.
pub open spec fn modifier_event(old_mods: u8, new_mods: u8, i: int, timestamp: u64) -> Seq<InputEvent> {
    let was = old_mods & modifier_mask(i) != 0;
    let is = new_mods & modifier_mask(i) != 0;
    if was != is {
        seq![key_ev(modifier_code(i), if is { 1 } else { 0 }, timestamp)]
    } else {
        Seq::empty()
    }
}

/// The events for the modifiers at positions below `n` that changed, in order.
pub open spec fn modifier_events(old_mods: u8, new_mods: u8, n: nat, timestamp: u64) -> Seq<InputEvent>
    decreases n,
{
    if n == 0 {
        Seq::empty()
    } else {
        modifier_events(old_mods, new_mods, (n - 1) as nat, timestamp) + modifier_event(old_mods, new_mods, n - 1, timestamp)
    }
}

/// The events a keyboard report produces after `last`: presses of new keys, releases
/// of keys gone, then modifier changes.
pub open spec fn keyboard_report_events(last: BootKeyboardReport, report: BootKeyboardReport, timestamp: u64) -> Seq<InputEvent> {
    key_change_events(report.keys@, last.keys@, 1, timestamp)
        + key_change_events(last.keys@, report.keys@, 0, timestamp)
        + (if last.modifiers != report.modifiers { modifier_events(last.modifiers, report.modifiers, 8, timestamp) } else { Seq::empty() })
}

/// The event for a mouse button (by mask) if it changed between `last` and `now`.
pub open spec fn mouse_button_event(last: u8, now: u8, mask: u8, code: u16, timestamp: u64) -> Seq<InputEvent> {
    if now & mask != last & mask {
        seq![key_ev(code, if now & mask != 0 { 1 } else { 0 }, timestamp)]
    } else {
        Seq::empty()
    }
}

/// A relative motion event along axis `code`.
pub open spec fn rel_ev(code: u16, value: i32, timestamp: u64) -> InputEvent {
    InputEvent { timestamp, event_type: InputEventType::Relative, code, value }
}

/// The events a mouse report produces after buttons `last`: button changes (left,
/// right, middle), then X and Y motion.
pub open spec fn mouse_report_events(last: u8, report: BootMouseReport, timestamp: u64) -> Seq<InputEvent> {
    (if report.buttons != last {
        mouse_button_event(last, report.buttons, 0x01, keycode::BTN_LEFT, timestamp)
            + mouse_button_event(last, report.buttons, 0x02, keycode::BTN_RIGHT, timestamp)
            + mouse_button_event(last, report.buttons, 0x04, keycode::BTN_MIDDLE, timestamp)
    } else {
        Seq::empty()
    })
        + (if report.x != 0 { seq![rel_ev(0, report.x as i32, timestamp)] } else { Seq::empty() })
        + (if report.y != 0 { seq![rel_ev(1, report.y as i32, timestamp)] } else { Seq::empty() })
}

fn keys_contain(keys: &[u8; 6], k: u8) -> (b: bool)
    ensures
        b == keys@.contains(k),
{
    let mut i: usize = 0;
    while i < 6
        invariant
            i <= 6,
            keys@.len() == 6,
            forall|j: int| 0 <= j < i ==> keys@[j] != k,
        decreases 6 - i,
    {
        if keys[i] == k {
            assert(keys@[i as int] == k);
            return true;
        }
        i = i + 1;
    }
    false
}

fn modifier_mask_at(i: usize) -> (m: u8)
    requires
        i < 8,
    ensures
        m == modifier_mask(i as int),
{
    if i == 0 { 0x01 } else if i == 1 { 0x02 } else if i == 2 { 0x04 } else if i == 3 { 0x08 }
    else if i == 4 { 0x10 } else if i == 5 { 0x20 } else if i == 6 { 0x40 } else { 0x80 }
}

fn modifier_code_at(i: usize) -> (c: u16)
    requires
        i < 8,
    ensures
        c == modifier_code(i as int),
{
    if i == 0 { keycode::KEY_LEFTCTRL } else if i == 1 { keycode::KEY_LEFTSHIFT }
    else if i == 2 { keycode::KEY_LEFTALT } else if i == 3 { keycode::KEY_LEFTMETA }
    else if i == 4 { keycode::KEY_RIGHTCTRL } else if i == 5 { keycode::KEY_RIGHTSHIFT }
    else if i == 6 { keycode::KEY_RIGHTALT } else { keycode::KEY_RIGHTMETA }
}

/// Queue the events of `keys` that `other` lacks, with `value`.
fn queue_key_changes(input: &mut InputSystem, keys: &[u8; 6], other: &[u8; 6], value: i32, timestamp: u64)
    ensures
        final(input).queue@ == queued_all(old(input).queue@, key_change_events(keys@, other@, value, timestamp)),
        final(input).devices@ == old(input).devices@,
{
    let ghost q0 = input.queue@;
    let mut i: usize = 0;
    assert(keys@.subrange(0, 0) =~= Seq::<u8>::empty());
    while i < 6
        invariant
            i <= 6,
            keys@.len() == 6,
            input.queue@ == queued_all(q0, key_change_events(keys@.subrange(0, i as int), other@, value, timestamp)),
            input.devices@ == old(input).devices@,
        decreases 6 - i,
    {
        let key = keys[i];
        let ghost before = key_change_events(keys@.subrange(0, i as int), other@, value, timestamp);
        let ghost step: Seq<InputEvent> = if key != 0 && !other@.contains(key) {
            seq![key_ev(key as u16, value, timestamp)]
        } else {
            Seq::empty()
        };
        proof {
            let s = keys@.subrange(0, i as int + 1);
            assert(s.drop_last() =~= keys@.subrange(0, i as int));
            assert(s.last() == key);
            assert(key_change_events(s, other@, value, timestamp) == before + step);
        }
        let ghost q = input.queue@;
        if key != 0 && !keys_contain(other, key) {
            queue_event(input, InputEvent { timestamp, event_type: InputEventType::Key, code: key as u16, value });
            proof { lemma_queued_all_one(q, key_ev(key as u16, value, timestamp)); }
        }
        assert(input.queue@ == queued_all(q, step));
        proof { lemma_queued_all_append(q0, before, step); }
        i = i + 1;
    }
    assert(keys@.subrange(0, 6) =~= keys@);
}

impl HidDevice {
    /// A HID device with no report seen yet; keyboards report 8 bytes, others 3
    pub fn new(usb_device: UsbDevice, protocol: u8, interface: u8, endpoint: u8) -> (d: HidDevice)
        ensures
            d.usb_device == usb_device,
            d.protocol == protocol,
            d.interface == interface,
            d.endpoint == endpoint,
            d.report_length == (if protocol == PROTOCOL_KEYBOARD { 8u8 } else { 3u8 }),
            d.last_keyboard_report.modifiers == 0,
            d.last_keyboard_report.keys@ == seq![0u8, 0, 0, 0, 0, 0],
            d.last_mouse_buttons == 0,
    {
        HidDevice {
            usb_device,
            protocol,
            interface,
            endpoint,
            report_length: if protocol == PROTOCOL_KEYBOARD { 8 } else { 3 },
            last_keyboard_report: BootKeyboardReport::empty(),
            last_mouse_buttons: 0,
        }
    }

    /// Process a keyboard report at `timestamp`: queue a press for each key newly
    /// down, a release for each key no longer down, and an event for each modifier
    /// that changed; then remember the report.
    pub fn process_keyboard_report(&mut self, input: &mut InputSystem, report: &BootKeyboardReport, timestamp: u64)
        ensures
            final(input).queue@ == queued_all(old(input).queue@,
                keyboard_report_events(old(self).last_keyboard_report, *report, timestamp)),
            final(input).devices@ == old(input).devices@,
            final(self).last_keyboard_report.modifiers == report.modifiers,
            final(self).last_keyboard_report.keys@ == report.keys@,
            final(self).last_mouse_buttons == old(self).last_mouse_buttons,
            final(self).protocol == old(self).protocol,
            final(self).usb_device == old(self).usb_device,
    {
        let ghost q0 = input.queue@;
        let last = self.last_keyboard_report;
        queue_key_changes(input, &report.keys, &last.keys, 1, timestamp);
        let ghost q1 = input.queue@;
        queue_key_changes(input, &last.keys, &report.keys, 0, timestamp);
        proof {
            lemma_queued_all_append(q0, key_change_events(report.keys@, last.keys@, 1, timestamp),
                key_change_events(last.keys@, report.keys@, 0, timestamp));
        }
        let ghost press_release = key_change_events(report.keys@, last.keys@, 1, timestamp)
            + key_change_events(last.keys@, report.keys@, 0, timestamp);
        let ghost q2 = input.queue@;
        let old_mods = last.modifiers;
        let new_mods = report.modifiers;
        if old_mods != new_mods {
            let mut i: usize = 0;
            while i < 8
                invariant
                    i <= 8,
                    input.queue@ == queued_all(q2, modifier_events(old_mods, new_mods, i as nat, timestamp)),
                    input.devices@ == old(input).devices@,
                decreases 8 - i,
            {
                let ghost q = input.queue@;
                self.check_modifier_change(input, timestamp, old_mods, new_mods, modifier_mask_at(i), modifier_code_at(i));
                proof {
                    lemma_queued_all_append(q2, modifier_events(old_mods, new_mods, i as nat, timestamp),
                        modifier_event(old_mods, new_mods, i as int, timestamp));
                }
                i = i + 1;
            }
            proof {
                lemma_queued_all_append(q0, press_release, modifier_events(old_mods, new_mods, 8, timestamp));
            }
        } else {
            assert(press_release + Seq::<InputEvent>::empty() =~= press_release);
        }
        self.last_keyboard_report = *report;
    }

    /// Queue an event for the modifier under `mask` if it changed from `old_mods` to `new_mods`.
    fn check_modifier_change(&self, input: &mut InputSystem, timestamp: u64, old_mods: u8, new_mods: u8, mask: u8, code: u16)
        ensures
            final(input).queue@ == queued_all(old(input).queue@, ({
                let was = old_mods & mask != 0;
                let is = new_mods & mask != 0;
                if was != is { seq![key_ev(code, if is { 1 } else { 0 }, timestamp)] } else { Seq::empty() }
            })),
            final(input).devices@ == old(input).devices@,
    {
        let was_pressed = old_mods & mask != 0;
        let is_pressed = new_mods & mask != 0;
        let ghost q = input.queue@;
        if was_pressed != is_pressed {
            let event = InputEvent {
                timestamp,
                event_type: InputEventType::Key,
                code,
                value: if is_pressed { 1 } else { 0 },
            };
            queue_event(input, event);
            proof { lemma_queued_all_one(q, event); }
        } else {
            assert(Seq::<InputEvent>::empty().len() == 0);
        }
    }

    /// Queue the event for one mouse button (by mask) if it changed.
    fn check_button_change(input: &mut InputSystem, last: u8, now: u8, mask: u8, code: u16, timestamp: u64)
        ensures
            final(input).queue@ == queued_all(old(input).queue@, mouse_button_event(last, now, mask, code, timestamp)),
            final(input).devices@ == old(input).devices@,
    {
        let ghost q = input.queue@;
        if (now & mask) != (last & mask) {
            let event = InputEvent {
                timestamp,
                event_type: InputEventType::Key,
                code,
                value: if now & mask != 0 { 1 } else { 0 },
            };
            queue_event(input, event);
            proof { lemma_queued_all_one(q, event); }
        }
    }

    /// Process a mouse report at `timestamp`: queue an event for each button that
    /// changed, then motion along X and Y; remember the buttons.
    pub fn process_mouse_report(&mut self, input: &mut InputSystem, report: &BootMouseReport, timestamp: u64)
        ensures
            final(input).queue@ == queued_all(old(input).queue@, mouse_report_events(old(self).last_mouse_buttons, *report, timestamp)),
            final(input).devices@ == old(input).devices@,
            final(self).last_mouse_buttons == report.buttons,
            final(self).last_keyboard_report == old(self).last_keyboard_report,
            final(self).protocol == old(self).protocol,
            final(self).usb_device == old(self).usb_device,
    {
        let ghost q0 = input.queue@;
        let last = self.last_mouse_buttons;
        let now = report.buttons;
        let ghost buttons: Seq<InputEvent> = if now != last {
            mouse_button_event(last, now, 0x01, keycode::BTN_LEFT, timestamp)
                + mouse_button_event(last, now, 0x02, keycode::BTN_RIGHT, timestamp)
                + mouse_button_event(last, now, 0x04, keycode::BTN_MIDDLE, timestamp)
        } else {
            Seq::empty()
        };
        if now != last {
            Self::check_button_change(input, last, now, 0x01, keycode::BTN_LEFT, timestamp);
            let ghost q1 = input.queue@;
            Self::check_button_change(input, last, now, 0x02, keycode::BTN_RIGHT, timestamp);
            let ghost q2 = input.queue@;
            Self::check_button_change(input, last, now, 0x04, keycode::BTN_MIDDLE, timestamp);
            proof {
                lemma_queued_all_append(q0, mouse_button_event(last, now, 0x01, keycode::BTN_LEFT, timestamp),
                    mouse_button_event(last, now, 0x02, keycode::BTN_RIGHT, timestamp));
                lemma_queued_all_append(q0, mouse_button_event(last, now, 0x01, keycode::BTN_LEFT, timestamp)
                    + mouse_button_event(last, now, 0x02, keycode::BTN_RIGHT, timestamp),
                    mouse_button_event(last, now, 0x04, keycode::BTN_MIDDLE, timestamp));
            }
            self.last_mouse_buttons = now;
        }
        assert(input.queue@ == queued_all(q0, buttons));
        let ghost q3 = input.queue@;
        let ghost ex: Seq<InputEvent> = if report.x != 0 { seq![rel_ev(0, report.x as i32, timestamp)] } else { Seq::empty() };
        if report.x != 0 {
            let e = InputEvent { timestamp, event_type: InputEventType::Relative, code: 0, value: report.x as i32 };
            queue_event(input, e);
            proof { lemma_queued_all_one(q3, e); }
        }
        assert(input.queue@ == queued_all(q3, ex));
        let ghost q4 = input.queue@;
        let ghost ey: Seq<InputEvent> = if report.y != 0 { seq![rel_ev(1, report.y as i32, timestamp)] } else { Seq::empty() };
        if report.y != 0 {
            let e = InputEvent { timestamp, event_type: InputEventType::Relative, code: 1, value: report.y as i32 };
            queue_event(input, e);
            proof { lemma_queued_all_one(q4, e); }
        }
        assert(input.queue@ == queued_all(q4, ey));
        proof {
            lemma_queued_all_append(q0, buttons, ex);
            lemma_queued_all_append(q0, buttons + ex, ey);
        }
    }

    /// Check if this is a keyboard
    pub fn is_keyboard(&self) -> (b: bool)
        ensures
            b == (self.protocol == PROTOCOL_KEYBOARD),
    {
        self.protocol == PROTOCOL_KEYBOARD
    }

    /// Check if this is a mouse
    pub fn is_mouse(&self) -> (b: bool)
        ensures
            b == (self.protocol == PROTOCOL_MOUSE),
    {
        self.protocol == PROTOCOL_MOUSE
    }
}

/// The character a HID keyboard usage ID types, with or without shift.
pub open spec fn hid_usage_char(usage: u8, shift: bool) -> Option<char> {
    if 0x04 <= usage <= 0x1D {
        Some(((if shift { 0x41int } else { 0x61int }) + usage - 0x04) as char)
    } else if 0x1E <= usage <= 0x26 {
        if shift {
            Some(if usage == 0x1E { '!' } else if usage == 0x1F { '@' } else if usage == 0x20 { '#' }
                else if usage == 0x21 { '$' } else if usage == 0x22 { '%' } else if usage == 0x23 { '^' }
                else if usage == 0x24 { '&' } else if usage == 0x25 { '*' } else { '(' })
        } else {
            Some(((usage - 0x1E + 1) % 10 + 0x30) as char)
        }
    } else if usage == 0x27 {
        Some(if shift { ')' } else { '0' })
    } else if usage == 0x28 {
        Some('\n')
    } else if usage == 0x29 {
        Some('\x1B')
    } else if usage == 0x2A {
        Some('\x08')
    } else if usage == 0x2B {
        Some('\t')
    } else if usage == 0x2C {
        Some(' ')
    } else if usage == 0x2D {
        Some(if shift { '_' } else { '-' })
    } else if usage == 0x2E {
        Some(if shift { '+' } else { '=' })
    } else if usage == 0x2F {
        Some(if shift { '{' } else { '[' })
    } else if usage == 0x30 {
        Some(if shift { '}' } else { ']' })
    } else if usage == 0x31 {
        Some(if shift { '|' } else { '\\' })
    } else if usage == 0x33 {
        Some(if shift { ':' } else { ';' })
    } else if usage == 0x34 {
        Some(if shift { '"' } else { '\'' })
    } else if usage == 0x35 {
        Some(if shift { '~' } else { '`' })
    } else if usage == 0x36 {
        Some(if shift { '<' } else { ',' })
    } else if usage == 0x37 {
        Some(if shift { '>' } else { '.' })
    } else if usage == 0x38 {
        Some(if shift { '?' } else { '/' })
    } else {
        None
    }
}

/// Convert a USB HID keyboard usage ID to the ASCII character it types
pub fn to_ascii(usage: u8, shift: bool) -> (r: Option<char>)
    ensures
        r == hid_usage_char(usage, shift),
{
    if 0x04 <= usage && usage <= 0x1D {
        let base: u8 = if shift { 0x41 } else { 0x61 };
        Some((base + usage - 0x04) as char)
    } else if 0x1E <= usage && usage <= 0x26 {
        if shift {
            Some(match usage {
                0x1E => '!',
                0x1F => '@',
                0x20 => '#',
                0x21 => '$',
                0x22 => '%',
                0x23 => '^',
                0x24 => '&',
                0x25 => '*',
                _ => '(',
            })
        } else {
            Some(((usage - 0x1E + 1) % 10 + 0x30) as char)
        }
    } else {
        match usage {
            0x27 => Some(if shift { ')' } else { '0' }),
            0x28 => Some('\n'),
            0x29 => Some('\x1B'),
            0x2A => Some('\x08'),
            0x2B => Some('\t'),
            0x2C => Some(' '),
            0x2D => Some(if shift { '_' } else { '-' }),
            0x2E => Some(if shift { '+' } else { '=' }),
            0x2F => Some(if shift { '{' } else { '[' }),
            0x30 => Some(if shift { '}' } else { ']' }),
            0x31 => Some(if shift { '|' } else { '\\' }),
            0x33 => Some(if shift { ':' } else { ';' }),
            0x34 => Some(if shift { '"' } else { '\'' }),
            0x35 => Some(if shift { '~' } else { '`' }),
            0x36 => Some(if shift { '<' } else { ',' }),
            0x37 => Some(if shift { '>' } else { '.' }),
            0x38 => Some(if shift { '?' } else { '/' }),
            _ => None,
        }
    }
}

/// The registered HID devices.
pub struct HidRegistry {
    pub devices: Vec<HidDevice>,
}

impl HidRegistry {
    /// No devices.
    pub fn new() -> (r: HidRegistry)
        ensures
            r.devices@.len() == 0,
    {
        HidRegistry { devices: Vec::new() }
    }
}

/// Register a HID device
pub fn register_device(hid: &mut HidRegistry, device: HidDevice)
    ensures
        final(hid).devices@ == old(hid).devices@.push(device),
{
    hid.devices.push(device);
}

/// The USB addresses of the HID devices, in registration order
pub fn get_devices(hid: &HidRegistry) -> (v: Vec<u8>)
    ensures
        v@ == hid.devices@.map_values(|d: HidDevice| d.usb_device.address),
{
    let mut v: Vec<u8> = Vec::new();
    let mut i: usize = 0;
    while i < hid.devices.len()
        invariant
            i <= hid.devices@.len(),
            v@ == hid.devices@.subrange(0, i as int).map_values(|d: HidDevice| d.usb_device.address),
        decreases hid.devices@.len() - i,
    {
        v.push(hid.devices[i].usb_device.address);
        i = i + 1;
        assert(v@ =~= hid.devices@.subrange(0, i as int).map_values(|d: HidDevice| d.usb_device.address));
    }
    assert(hid.devices@.subrange(0, hid.devices@.len() as int) =~= hid.devices@);
    v
}

/// How many devices speak `protocol`.
pub open spec fn count_protocol(devices: Seq<HidDevice>, protocol: u8) -> nat {
    devices.filter(|d: HidDevice| d.protocol == protocol).len()
}

fn count_with_protocol(hid: &HidRegistry, protocol: u8) -> (n: usize)
    ensures
        n == count_protocol(hid.devices@, protocol),
{
    let mut n: usize = 0;
    let mut i: usize = 0;
    while i < hid.devices.len()
        invariant
            i <= hid.devices@.len(),
            n == count_protocol(hid.devices@.subrange(0, i as int), protocol),
            n <= i,
        decreases hid.devices@.len() - i,
    {
        proof {
            let s = hid.devices@.subrange(0, i as int + 1);
            assert(s.drop_last() =~= hid.devices@.subrange(0, i as int));
            reveal(Seq::filter);
        }
        if hid.devices[i].protocol == protocol {
            n = n + 1;
        }
        i = i + 1;
    }
    assert(hid.devices@.subrange(0, hid.devices@.len() as int) =~= hid.devices@);
    n
}

/// Count HID keyboards
pub fn find_keyboards(hid: &HidRegistry) -> (n: usize)
    ensures
        n == count_protocol(hid.devices@, PROTOCOL_KEYBOARD),
{
    count_with_protocol(hid, PROTOCOL_KEYBOARD)
}

/// Count HID mice
pub fn find_mice(hid: &HidRegistry) -> (n: usize)
    ensures
        n == count_protocol(hid.devices@, PROTOCOL_MOUSE),
{
    count_with_protocol(hid, PROTOCOL_MOUSE)
}

/// Register a HID device, on interface 0 and endpoint 0x81 with the device's own
/// protocol, for each enumerated USB device of the HID class, in order.
pub fn init(hid: &mut HidRegistry, usb: &UsbRegistry)
    ensures
        ({
            let found = of_class(usb.devices@, UsbClass::Hid);
            &&& final(hid).devices@.len() == old(hid).devices@.len() + found.len()
            &&& final(hid).devices@.subrange(0, old(hid).devices@.len() as int) == old(hid).devices@
            &&& forall|k: int| 0 <= k < found.len() ==> {
                let d = #[trigger] final(hid).devices@[old(hid).devices@.len() + k];
                &&& d.usb_device == found[k]
                &&& d.protocol == found[k].protocol
                &&& d.interface == 0
                &&& d.endpoint == 0x81
                &&& d.last_mouse_buttons == 0
            }
        }),
{
    let devices = super::get_devices(usb);
    let ghost n0 = hid.devices@.len();
    let mut i: usize = 0;
    while i < devices.len()
        invariant
            i <= devices@.len(),
            devices@ == usb.devices@,
            hid.devices@.subrange(0, n0 as int) == old(hid).devices@,
            n0 == old(hid).devices@.len(),
            ({
                let found = of_class(devices@.subrange(0, i as int), UsbClass::Hid);
                &&& hid.devices@.len() == n0 + found.len()
                &&& forall|k: int| 0 <= k < found.len() ==> {
                    let d = #[trigger] hid.devices@[n0 + k];
                    &&& d.usb_device == found[k]
                    &&& d.protocol == found[k].protocol
                    &&& d.interface == 0
                    &&& d.endpoint == 0x81
                    &&& d.last_mouse_buttons == 0
                }
            }),
        decreases devices@.len() - i,
    {
        proof {
            let s = devices@.subrange(0, i as int + 1);
            assert(s.drop_last() =~= devices@.subrange(0, i as int));
            reveal(Seq::filter);
        }
        let usb_device = devices[i].duplicate();
        if usb_device.class == UsbClass::Hid {
            let protocol = usb_device.protocol;
            let device = HidDevice::new(usb_device, protocol, 0, 0x81);
            register_device(hid, device);
            assert(hid.devices@.subrange(0, n0 as int) =~= old(hid).devices@);
        }
        i = i + 1;
    }
    assert(devices@.subrange(0, devices@.len() as int) =~= devices@);
}

} // verus!
