use kernel::drivers::input::event::{scancode_to_ascii, InputEvent, InputEventType, MouseButton, RelAxis};
use kernel::drivers::input::keyboard::{self, ps2_to_keycode, read_char, Keyboard};
use kernel::drivers::input::keycode::{KEY_A, KEY_CAPSLOCK, KEY_ENTER, KEY_LEFTSHIFT, KEY_1};
use kernel::drivers::input::mouse::{self, get_buttons, get_position, Mouse};
use kernel::drivers::input::{
    has_events, list_devices, pending_count, poll_event, queue_event, register_device, InputDeviceType,
    InputSystem, MAX_EVENTS,
};

#[test]
fn queue_is_fifo_and_drops_oldest_when_full() {
    let mut input = InputSystem::new();
    assert!(!has_events(&input));
    for t in 0..(MAX_EVENTS as u64 + 2) {
        queue_event(&mut input, InputEvent::sync(t));
    }
    assert_eq!(pending_count(&input), MAX_EVENTS);
    // the two oldest were dropped
    assert_eq!(poll_event(&mut input).unwrap().timestamp, 2);
    assert_eq!(poll_event(&mut input).unwrap().timestamp, 3);
}

#[test]
fn event_constructors() {
    let e = InputEvent::key_press(KEY_A, 7);
    assert_eq!(e.event_type, InputEventType::Key);
    assert_eq!(e.value, 1);
    assert_eq!(InputEvent::key_release(KEY_A, 7).value, 0);
    let m = InputEvent::rel_motion(RelAxis::Y, -3, 1);
    assert_eq!(m.event_type, InputEventType::Relative);
    assert_eq!(m.code, RelAxis::Y.code());
    assert_eq!(m.value, -3);
    assert_eq!(InputEvent::mouse_button_press(MouseButton::Left, 0).code, MouseButton::Left.code());
    assert_eq!(InputEventType::Led.code(), 0x11);
}

#[test]
fn keys_translate_to_characters() {
    assert_eq!(scancode_to_ascii(KEY_A, false), Some('a'));
    assert_eq!(scancode_to_ascii(KEY_A, true), Some('A'));
    assert_eq!(scancode_to_ascii(KEY_1, true), Some('!'));
    assert_eq!(scancode_to_ascii(KEY_ENTER, false), Some('\n'));
    assert_eq!(scancode_to_ascii(KEY_LEFTSHIFT, false), None);
    assert_eq!(ps2_to_keycode(0x1E), KEY_A);
}

#[test]
fn keyboard_interrupts_and_shift_state() {
    let mut input = InputSystem::new();
    let mut kbd = Keyboard::new();
    // press and release 'a'
    keyboard::handle_interrupt(&mut kbd, &mut input, 0x1E, 1);
    keyboard::handle_interrupt(&mut kbd, &mut input, 0x9E, 2);
    assert_eq!(read_char(&kbd, &mut input), Some('a'));
    assert_eq!(read_char(&kbd, &mut input), None);
    assert_eq!(read_char(&kbd, &mut input), None);
    // caps lock toggles on press only
    kbd.handle_key(&mut input, KEY_CAPSLOCK, true, 3);
    kbd.handle_key(&mut input, KEY_CAPSLOCK, false, 4);
    assert!(kbd.is_shifted());
    // with caps lock and shift both on, letters come out lower case
    kbd.handle_key(&mut input, KEY_LEFTSHIFT, true, 5);
    assert!(!kbd.is_shifted());
    while poll_event(&mut input).is_some() {}
    keyboard::handle_interrupt(&mut kbd, &mut input, 0x1E, 6);
    assert_eq!(read_char(&kbd, &mut input), Some('a'));
}

#[test]
fn mouse_packets() {
    let mut input = InputSystem::new();
    let mut m = Mouse::new();
    // left button down, dx = +5, dy byte -2 (up on screen is positive y in the packet)
    mouse::handle_interrupt(&mut m, &mut input, &[0x01, 5, 0xFE], 1);
    assert_eq!(get_position(&m), (5, 2));
    assert_eq!(get_buttons(&m), (true, false, false));
    // a button event, then X and Y motion
    assert_eq!(pending_count(&input), 3);
    let b = poll_event(&mut input).unwrap();
    assert_eq!(b.code, MouseButton::Left.code());
    assert_eq!(b.value, 1);
    assert_eq!(poll_event(&mut input).unwrap().value, 5);
    assert_eq!(poll_event(&mut input).unwrap().value, 2);
    // short packets are ignored
    mouse::handle_interrupt(&mut m, &mut input, &[0x00, 1], 2);
    assert_eq!(pending_count(&input), 0);
    // motion saturates
    m.handle_motion(&mut input, i32::MAX, 0, 3);
    m.handle_motion(&mut input, i32::MAX, 0, 4);
    assert_eq!(get_position(&m).0, i32::MAX);
}

#[test]
fn device_registry() {
    let mut input = InputSystem::new();
    keyboard::init(&mut input);
    mouse::init(&mut input);
    assert_eq!(register_device(&mut input, "tablet", InputDeviceType::Touchpad), 2);
    let devs = list_devices(&input);
    assert_eq!(devs.len(), 3);
    assert_eq!(devs[2].name, "tablet");
}

#[test]
fn caps_lock_shifts_letters_only() {
    let mut input = InputSystem::new();
    let mut kbd = Keyboard::new();
    kbd.handle_key(&mut input, KEY_CAPSLOCK, true, 1);
    kbd.handle_key(&mut input, KEY_CAPSLOCK, false, 2);
    while poll_event(&mut input).is_some() {}
    kbd.handle_key(&mut input, KEY_1, true, 3);
    assert_eq!(read_char(&kbd, &mut input), Some('1'));
    assert_eq!(pending_count(&input), 0);
    kbd.handle_key(&mut input, KEY_A, true, 4);
    assert_eq!(read_char(&kbd, &mut input), Some('A'));
    kbd.handle_key(&mut input, KEY_LEFTSHIFT, true, 5);
    while poll_event(&mut input).is_some() {}
    kbd.handle_key(&mut input, KEY_1, true, 6);
    assert_eq!(read_char(&kbd, &mut input), Some('!'));
}
