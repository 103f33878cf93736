use kernel::drivers::input::{pending_count, poll_event, InputSystem};
use kernel::drivers::usb::device::SetupPacket;
use kernel::drivers::usb::hid::{
    self, to_ascii, BootKeyboardReport, BootMouseReport, HidDevice, HidRegistry, PROTOCOL_KEYBOARD,
    PROTOCOL_MOUSE,
};
use kernel::drivers::usb::msc::{CommandBlockWrapper, InquiryResponse, MscDevice, CBW_SIGNATURE};
use kernel::drivers::usb::xhci::XhciController;
use kernel::drivers::usb::{find_by_class, find_device, register_device, UsbClass, UsbDevice, UsbRegistry, UsbSpeed};

#[test]
fn class_codes_round_trip() {
    for c in [UsbClass::Hid, UsbClass::MassStorage, UsbClass::Hub, UsbClass::Video] {
        assert_eq!(UsbClass::from_u8(c.code()), c);
    }
    assert_eq!(UsbClass::Hid.code(), 0x03);
    assert_eq!(UsbClass::MassStorage.name(), "Mass Storage");
    assert_eq!(UsbSpeed::High.name(), "High (480 Mbps)");
}

#[test]
fn setup_packets() {
    let p = SetupPacket::get_descriptor(1, 0, 18);
    assert_eq!(p.request_type, 0x80);
    assert_eq!(p.value, 0x0100);
    assert_eq!(p.length, 18);
    assert_eq!(SetupPacket::set_address(5).value, 5);
    assert_eq!(SetupPacket::set_configuration(1).request_type, 0);
}

#[test]
fn hid_usages() {
    assert_eq!(to_ascii(0x04, false), Some('a'));
    assert_eq!(to_ascii(0x04, true), Some('A'));
    assert_eq!(to_ascii(0x1E, true), Some('!'));
    assert_eq!(to_ascii(0x38, false), Some('/'));
    assert_eq!(to_ascii(0x00, false), None);
}

#[test]
fn hid_keyboard_reports_queue_presses_and_releases() {
    let mut input = InputSystem::new();
    let mut kbd = HidDevice::new(UsbDevice::new(1, UsbSpeed::Full), PROTOCOL_KEYBOARD, 0, 1);
    assert!(kbd.is_keyboard());
    let mut r = BootKeyboardReport::empty();
    r.keys[0] = 0x04;
    kbd.process_keyboard_report(&mut input, &r, 1);
    assert_eq!(pending_count(&input), 1);
    let e = poll_event(&mut input).unwrap();
    assert_eq!(e.value, 1);
    // the same report again changes nothing
    kbd.process_keyboard_report(&mut input, &r, 2);
    assert_eq!(pending_count(&input), 0);
    // the key goes up
    kbd.process_keyboard_report(&mut input, &BootKeyboardReport::empty(), 3);
    assert_eq!(poll_event(&mut input).unwrap().value, 0);
    let shifted = BootKeyboardReport { modifiers: 0x02, reserved: 0, keys: [0; 6] };
    assert!(shifted.left_shift());
    assert!(shifted.shift());
    assert!(!shifted.ctrl());
}

#[test]
fn hid_mouse_reports() {
    let mut input = InputSystem::new();
    let mut m = HidDevice::new(UsbDevice::new(2, UsbSpeed::Full), PROTOCOL_MOUSE, 0, 1);
    assert!(m.is_mouse());
    let r = BootMouseReport { buttons: 0x01, x: 3, y: -4 };
    assert!(r.left_button());
    assert!(!r.right_button());
    m.process_mouse_report(&mut input, &r, 1);
    assert!(pending_count(&input) >= 1);
    let mut reg = HidRegistry::new();
    hid::register_device(&mut reg, m);
    assert_eq!(hid::find_mice(&reg), 1);
    assert_eq!(hid::find_keyboards(&reg), 0);
}

#[test]
fn usb_registry() {
    let mut reg = UsbRegistry::new();
    let mut d = UsbDevice::new(1, UsbSpeed::High);
    d.vendor_id = 0x46f4;
    d.product_id = 0x0001;
    d.class = UsbClass::MassStorage;
    register_device(&mut reg, d);
    assert_eq!(find_device(&reg, 0x46f4, 0x0001).unwrap().address, 1);
    assert!(find_device(&reg, 0x1234, 0x0001).is_none());
    assert_eq!(find_by_class(&reg, UsbClass::MassStorage).len(), 1);
    assert_eq!(find_by_class(&reg, UsbClass::Hid).len(), 0);
}

#[test]
fn mass_storage_commands() {
    let w = CommandBlockWrapper::new(7, 512, true, 0, &[0x28, 0, 0, 0, 0, 1, 0, 0, 1, 0]);
    assert_eq!(w.signature, CBW_SIGNATURE);
    assert_eq!(w.flags, 0x80);
    assert_eq!(w.cb_length, 10);
    assert_eq!(w.cb[0], 0x28);
    assert_eq!(w.cb[10], 0);
    let mut dev = MscDevice::new(UsbDevice::new(3, UsbSpeed::High), 0, 1, 2);
    let a = dev.build_test_unit_ready();
    let b = dev.build_inquiry();
    assert_eq!(b.tag, a.tag.wrapping_add(1));
    assert_eq!(b.cb[0], 0x12);
    let inq = InquiryResponse {
        peripheral: 0,
        removable: 0x80,
        version: 4,
        response_format: 2,
        additional_length: 31,
        flags: [0; 3],
        vendor: *b"QEMU    ",
        product: *b"QEMU HARDDISK   ",
        revision: *b"2.5+",
    };
    assert_eq!(inq.vendor_string(), "QEMU");
    assert_eq!(inq.product_string(), "QEMU HARDDISK");
    assert!(inq.is_removable());
}

#[test]
fn xhci_registers() {
    // 4 ports, 32 slots; version 1.0; 4 KiB pages
    let c = XhciController::new(0x1000_0000, 0x20, 0x0100, (4 << 24) | 32, 0x2003, 0x3011, 1).unwrap();
    assert_eq!(c.num_ports(), 4);
    assert_eq!(c.max_slots(), 32);
    assert_eq!(c.db_base, 0x1000_0000 + 0x2000);
    assert_eq!(c.rt_base, 0x1000_0000 + 0x3000);
    assert_eq!(c.page_size, 4096);
    assert!(!c.is_running());
    assert!(c.is_port_connected(0, 1));
    assert!(!c.is_port_connected(5, 1));
    assert_eq!(c.port_speed(1, 1 | (3 << 10)), Some(UsbSpeed::High));
    assert_eq!(c.port_speed(1, 0), None);
    let devs = c.enumerate_devices(&[1 | (3 << 10), 0, 1 | (1 << 10), 0]);
    assert_eq!(devs.len(), 2);
    assert!(XhciController::new(0x1000_0000, 0x20, 0x0096, 0, 0, 0, 1).is_err());
}
