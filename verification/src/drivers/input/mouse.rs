//! Mouse state: position, buttons and scroll wheel, and PS/2 packet decoding.
use vstd::prelude::*;
use super::event::{InputEvent, InputEventType, MouseButton, RelAxis};
use super::{InputSystem, InputDeviceType, queue_event, queued, queued_all, register_device,
    lemma_queued_all_append, lemma_queued_all_one};

verus! {

/// Mouse state
#[derive(Debug, Clone, Copy, PartialEq, Eq, Structural)]
pub struct Mouse {
    /// Current X position (relative tracking)
    pub x: i32,
    /// Current Y position (relative tracking)
    pub y: i32,
    /// Left button state
    pub left_button: bool,
    /// Right button state
    pub right_button: bool,
    /// Middle button state
    pub middle_button: bool,
    /// Scroll wheel position
    pub scroll: i32,
}

/// `a + b`, held to the range of `i32`.
pub open spec fn sat_add(a: i32, b: i32) -> i32 {
    if a + b > i32::MAX {
        i32::MAX
    } else if a + b < i32::MIN {
        i32::MIN
    } else {
        (a + b) as i32
    }
}

fn saturating_add_i32(a: i32, b: i32) -> (r: i32)
    ensures
        r == sat_add(a, b),
{
    let s: i64 = a as i64 + b as i64;
    if s > i32::MAX as i64 {
        i32::MAX
    } else if s < i32::MIN as i64 {
        i32::MIN
    } else {
        s as i32
    }
}

/// A byte read as a two's complement signed number.
pub open spec fn signed_byte(b: u8) -> int {
    if b < 128 { b as int } else { b as int - 256 }
}

fn byte_as_i32(b: u8) -> (r: i32)
    ensures
        r == signed_byte(b),
{
    if b < 128 { b as i32 } else { b as i32 - 256 }
}

/// The relative motion event along `axis` by `delta`.
pub open spec fn motion_event(axis: RelAxis, delta: i32, timestamp: u64) -> InputEvent {
    InputEvent { timestamp, event_type: InputEventType::Relative, code: axis.spec_code(), value: delta }
}

/// The event for `button` going down (`pressed`) or up.
pub open spec fn button_event(button: MouseButton, pressed: bool, timestamp: u64) -> InputEvent {
    InputEvent { timestamp, event_type: InputEventType::Key, code: button.spec_code(), value: if pressed { 1 } else { 0 } }
}

/// The events a motion by (`dx`, `dy`) produces: one per axis that moved.
pub open spec fn motion_events(dx: i32, dy: i32, timestamp: u64) -> Seq<InputEvent> {
    (if dx != 0 { seq![motion_event(RelAxis::X, dx, timestamp)] } else { Seq::empty() })
        + (if dy != 0 { seq![motion_event(RelAxis::Y, dy, timestamp)] } else { Seq::empty() })
}

/// The mouse after `button` goes down or up.
pub open spec fn button_state_after(m: Mouse, button: MouseButton, pressed: bool) -> Mouse {
    match button {
        MouseButton::Left => Mouse { left_button: pressed, ..m },
        MouseButton::Right => Mouse { right_button: pressed, ..m },
        MouseButton::Middle => Mouse { middle_button: pressed, ..m },
        _ => m,
    }
}

impl Mouse {
    /// At the origin, no button held, wheel at zero.
    pub fn new() -> (m: Mouse)
        ensures
            m == (Mouse { x: 0, y: 0, left_button: false, right_button: false, middle_button: false, scroll: 0 }),
    {
        Mouse { x: 0, y: 0, left_button: false, right_button: false, middle_button: false, scroll: 0 }
    }

    /// Handle mouse movement: move (saturating) and queue a motion event per axis that moved
    pub fn handle_motion(&mut self, input: &mut InputSystem, dx: i32, dy: i32, timestamp: u64)
        ensures
            *final(self) == (Mouse { x: sat_add(old(self).x, dx), y: sat_add(old(self).y, dy), ..*old(self) }),
            final(input).queue@ == queued_all(old(input).queue@, motion_events(dx, dy, timestamp)),
            final(input).devices@ == old(input).devices@,
    {
        self.x = saturating_add_i32(self.x, dx);
        self.y = saturating_add_i32(self.y, dy);
        let ghost q0 = input.queue@;
        let ghost ex: Seq<InputEvent> = if dx != 0 { seq![motion_event(RelAxis::X, dx, timestamp)] } else { Seq::empty() };
        let ghost ey: Seq<InputEvent> = if dy != 0 { seq![motion_event(RelAxis::Y, dy, timestamp)] } else { Seq::empty() };
        if dx != 0 {
            queue_event(input, InputEvent::rel_motion(RelAxis::X, dx, timestamp));
            proof { lemma_queued_all_one(q0, motion_event(RelAxis::X, dx, timestamp)); }
        }
        assert(input.queue@ == queued_all(q0, ex));
        let ghost q1 = input.queue@;
        if dy != 0 {
            queue_event(input, InputEvent::rel_motion(RelAxis::Y, dy, timestamp));
            proof { lemma_queued_all_one(q1, motion_event(RelAxis::Y, dy, timestamp)); }
        }
        assert(input.queue@ == queued_all(q1, ey));
        proof { lemma_queued_all_append(q0, ex, ey); }
    }

    /// Handle a button going down or up: track left, right and middle, and queue the event
    pub fn handle_button(&mut self, input: &mut InputSystem, button: MouseButton, pressed: bool, timestamp: u64)
        ensures
            *final(self) == button_state_after(*old(self), button, pressed),
            final(input).queue@ == queued(old(input).queue@, button_event(button, pressed, timestamp)),
            final(input).devices@ == old(input).devices@,
    {
        match button {
            MouseButton::Left => self.left_button = pressed,
            MouseButton::Right => self.right_button = pressed,
            MouseButton::Middle => self.middle_button = pressed,
            _ => {},
        }
        let event = if pressed {
            InputEvent::mouse_button_press(button, timestamp)
        } else {
            InputEvent::mouse_button_release(button, timestamp)
        };
        queue_event(input, event);
    }

    /// Handle scroll wheel: move the wheel (saturating) and queue a wheel event
    pub fn handle_scroll(&mut self, input: &mut InputSystem, delta: i32, timestamp: u64)
        ensures
            *final(self) == (Mouse { scroll: sat_add(old(self).scroll, delta), ..*old(self) }),
            final(input).queue@ == queued(old(input).queue@, motion_event(RelAxis::Wheel, delta, timestamp)),
            final(input).devices@ == old(input).devices@,
    {
        self.scroll = saturating_add_i32(self.scroll, delta);
        queue_event(input, InputEvent::rel_motion(RelAxis::Wheel, delta, timestamp));
    }
}

/// Register the mouse as an input device
pub fn init(input: &mut InputSystem)
    ensures
        final(input).devices@.len() == old(input).devices@.len() + 1,
        final(input).devices@.subrange(0, old(input).devices@.len() as int) == old(input).devices@,
        final(input).devices@.last().id == old(input).devices@.len() as u32,
        final(input).devices@.last().name@ == "mouse0"@,
        final(input).devices@.last().device_type == InputDeviceType::Mouse,
        final(input).queue@ == old(input).queue@,
{
    register_device(input, "mouse0", InputDeviceType::Mouse);
}

/// The button events a packet with button byte `buttons` produces on mouse `m`:
/// one per button whose state changed, left, right, then middle.
pub open spec fn packet_button_events(m: Mouse, buttons: u8, timestamp: u64) -> Seq<InputEvent> {
    let left = buttons % 2 == 1;
    let right = (buttons / 2) % 2 == 1;
    let middle = (buttons / 4) % 2 == 1;
    (if left != m.left_button { seq![button_event(MouseButton::Left, left, timestamp)] } else { Seq::empty() })
        + (if right != m.right_button { seq![button_event(MouseButton::Right, right, timestamp)] } else { Seq::empty() })
        + (if middle != m.middle_button { seq![button_event(MouseButton::Middle, middle, timestamp)] } else { Seq::empty() })
}

/// The events a PS/2 packet of at least three bytes produces on mouse `m`: button
/// changes, motion (the Y axis inverted), and, in a fourth byte, the wheel.
pub open spec fn packet_events(m: Mouse, packet: Seq<u8>, timestamp: u64) -> Seq<InputEvent> {
    let dx = signed_byte(packet[1]) as i32;
    let dy = (-signed_byte(packet[2])) as i32;
    let scroll = if packet.len() >= 4 { signed_byte(packet[3]) as i32 } else { 0 };
    packet_button_events(m, packet[0], timestamp)
        + motion_events(dx, dy, timestamp)
        + (if scroll != 0 { seq![motion_event(RelAxis::Wheel, scroll, timestamp)] } else { Seq::empty() })
}

/// Mouse `m` after a PS/2 packet of at least three bytes.
pub open spec fn packet_state(m: Mouse, packet: Seq<u8>) -> Mouse {
    let dx = signed_byte(packet[1]) as i32;
    let dy = (-signed_byte(packet[2])) as i32;
    let scroll = if packet.len() >= 4 { signed_byte(packet[3]) as i32 } else { 0 };
    Mouse {
        x: sat_add(m.x, dx),
        y: sat_add(m.y, dy),
        left_button: packet[0] % 2 == 1,
        right_button: (packet[0] / 2) % 2 == 1,
        middle_button: (packet[0] / 4) % 2 == 1,
        scroll: sat_add(m.scroll, scroll),
    }
}

/// Handle a PS/2 mouse packet; one shorter than three bytes is ignored
pub fn handle_interrupt(mouse: &mut Mouse, input: &mut InputSystem, packet: &[u8], timestamp: u64)
    ensures
        packet@.len() < 3 ==> *final(mouse) == *old(mouse) && final(input).queue@ == old(input).queue@,
        packet@.len() >= 3 ==> *final(mouse) == packet_state(*old(mouse), packet@)
            && final(input).queue@ == queued_all(old(input).queue@, packet_events(*old(mouse), packet@, timestamp)),
        final(input).devices@ == old(input).devices@,
{
    if packet.len() < 3 {
        return;
    }
    let buttons = packet[0];
    let dx = byte_as_i32(packet[1]);
    let dy = -byte_as_i32(packet[2]);
    let left = (buttons & 0x01) != 0;
    let right = (buttons & 0x02) != 0;
    let middle = (buttons & 0x04) != 0;
    assert((((buttons & 0x01) != 0) == (buttons % 2 == 1)) && (((buttons & 0x02) != 0) == ((buttons / 2) % 2 == 1)) && (((buttons & 0x04) != 0) == ((buttons / 4) % 2 == 1))) by (bit_vector);
    let ghost m0 = *mouse;
    let ghost q0 = input.queue@;
    let ghost el: Seq<InputEvent> = if left != m0.left_button { seq![button_event(MouseButton::Left, left, timestamp)] } else { Seq::empty() };
    let ghost er: Seq<InputEvent> = if right != m0.right_button { seq![button_event(MouseButton::Right, right, timestamp)] } else { Seq::empty() };
    let ghost em: Seq<InputEvent> = if middle != m0.middle_button { seq![button_event(MouseButton::Middle, middle, timestamp)] } else { Seq::empty() };
    if left != mouse.left_button {
        mouse.handle_button(input, MouseButton::Left, left, timestamp);
        proof { lemma_queued_all_one(q0, button_event(MouseButton::Left, left, timestamp)); }
    }
    assert(input.queue@ == queued_all(q0, el));
    let ghost q1 = input.queue@;
    if right != mouse.right_button {
        mouse.handle_button(input, MouseButton::Right, right, timestamp);
        proof { lemma_queued_all_one(q1, button_event(MouseButton::Right, right, timestamp)); }
    }
    assert(input.queue@ == queued_all(q1, er));
    let ghost q2 = input.queue@;
    if middle != mouse.middle_button {
        mouse.handle_button(input, MouseButton::Middle, middle, timestamp);
        proof { lemma_queued_all_one(q2, button_event(MouseButton::Middle, middle, timestamp)); }
    }
    assert(input.queue@ == queued_all(q2, em));
    proof {
        lemma_queued_all_append(q0, el, er);
        lemma_queued_all_append(q0, el + er, em);
    }
    assert(input.queue@ == queued_all(q0, packet_button_events(m0, buttons, timestamp)));
    let ghost q3 = input.queue@;
    if dx != 0 || dy != 0 {
        mouse.handle_motion(input, dx, dy, timestamp);
    } else {
        assert(motion_events(dx, dy, timestamp) =~= Seq::<InputEvent>::empty());
    }
    assert(input.queue@ == queued_all(q3, motion_events(dx, dy, timestamp)));
    let ghost q4 = input.queue@;
    let scroll: i32 = if packet.len() >= 4 { byte_as_i32(packet[3]) } else { 0 };
    let ghost es: Seq<InputEvent> = if scroll != 0 { seq![motion_event(RelAxis::Wheel, scroll, timestamp)] } else { Seq::empty() };
    if scroll != 0 {
        mouse.handle_scroll(input, scroll, timestamp);
        proof { lemma_queued_all_one(q4, motion_event(RelAxis::Wheel, scroll, timestamp)); }
    }
    assert(input.queue@ == queued_all(q4, es));
    proof {
        lemma_queued_all_append(q0, packet_button_events(m0, buttons, timestamp), motion_events(dx, dy, timestamp));
        lemma_queued_all_append(q0, packet_button_events(m0, buttons, timestamp) + motion_events(dx, dy, timestamp), es);
    }
}

/// Get current mouse position
pub fn get_position(mouse: &Mouse) -> (p: (i32, i32))
    ensures
        p == (mouse.x, mouse.y),
{
    (mouse.x, mouse.y)
}

/// Get button states: left, right, middle
pub fn get_buttons(mouse: &Mouse) -> (b: (bool, bool, bool))
    ensures
        b == (mouse.left_button, mouse.right_button, mouse.middle_button),
{
    (mouse.left_button, mouse.right_button, mouse.middle_button)
}

} // verus!
