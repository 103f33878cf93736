use kernel::drivers::bus::pci::{
    self, config_address, PciScan, config_read16, config_read8, device_class, find_device, find_usb_controllers,
    find_xhci_controllers, probe_device, register_pci_device, PciRegistry,
};
use kernel::drivers::device::resources::DeviceResources;
use kernel::drivers::device::tree::{Device, DeviceId, DeviceState};
use kernel::drivers::device::{
    alloc_device_id, register_platform_device, register_virtio_device, BusType, DeviceClass, DeviceIdAllocator,
    DeviceManager, DriverInfo,
};

/// Configuration space of an xHCI controller (class 0C, subclass 03, prog-if 30)
/// with a 64-bit memory BAR at 0xfebf0000.
fn xhci_config() -> Vec<u32> {
    let mut c = vec![0u32; 16];
    c[0] = 0x000d_1b36;
    c[2] = 0x0c03_3001;
    c[3] = 0x0000_0000;
    c[4] = 0xfebf_0004;
    c[5] = 0x0000_0000;
    c[15] = 0x0000_010b;
    c
}

#[test]
fn config_space_access() {
    assert_eq!(config_address(0, 3, 0, 0x10), 0x8000_1810);
    assert_eq!(config_address(1, 0, 2, 0x3F), 0x8001_023C);
    assert_eq!(config_read16(0x1234_5678, 0), 0x5678);
    assert_eq!(config_read16(0x1234_5678, 2), 0x1234);
    assert_eq!(config_read8(0x1234_5678, 1), 0x56);
    assert_eq!(config_read8(0x1234_5678, 3), 0x12);
}

#[test]
fn probing_a_function() {
    let d = probe_device(0, 4, 0, &xhci_config()).unwrap();
    assert_eq!(d.vendor_id, 0x1b36);
    assert_eq!(d.device_id, 0x000d);
    assert_eq!(d.class_code, 0x0c);
    assert_eq!(d.subclass, 0x03);
    assert_eq!(d.prog_if, 0x30);
    assert_eq!(d.revision, 0x01);
    assert_eq!(d.interrupt_line, 11);
    assert_eq!(d.interrupt_pin, 1);
    assert!(d.is_usb_controller());
    assert_eq!(d.usb_controller_type(), Some("xHCI (USB 3.x)"));
    assert!(!d.is_multifunction());
    assert_eq!(d.bar_address(0), Some(0xfebf_0000));
    assert_eq!(d.bdf(), "00:04.0");
    assert_eq!(device_class(&d), DeviceClass::UsbController);
    let mut absent = vec![0u32; 16];
    absent[0] = 0xffff_ffff;
    assert!(probe_device(0, 5, 0, &absent).is_none());
}

#[test]
fn pci_registry_queries() {
    let mut reg = PciRegistry::new();
    reg.devices.push(probe_device(0, 4, 0, &xhci_config()).unwrap());
    let mut net = vec![0u32; 16];
    net[0] = 0x1000_1af4;
    net[2] = 0x0200_0000;
    reg.devices.push(probe_device(0, 3, 0, &net).unwrap());
    assert_eq!(find_device(&reg, 0x1af4, 0x1000).unwrap().device, 3);
    assert!(find_device(&reg, 0x8086, 0x1000).is_none());
    assert_eq!(find_usb_controllers(&reg).len(), 1);
    assert_eq!(find_xhci_controllers(&reg).len(), 1);
    assert_eq!(device_class(&reg.devices[1]), DeviceClass::Ethernet);
}

#[test]
fn device_tree() {
    let mut ids = DeviceIdAllocator::new();
    let mut dm = DeviceManager::new(&mut ids);
    let root = dm.root().unwrap();
    assert_eq!(dm.device_count(), 1);
    let kbd = register_platform_device(&mut dm, &mut ids, "ps2-kbd", DeviceClass::Keyboard);
    let blk = register_virtio_device(&mut dm, &mut ids, "virtio-blk", DeviceClass::BlockDevice);
    assert_eq!(dm.device_count(), 3);
    assert!(dm.get_device(kbd).unwrap().parent == Some(root));
    assert_eq!(dm.get_device(blk).unwrap().bus, BusType::VirtIO);
    assert_eq!(dm.find_by_class(DeviceClass::Keyboard).len(), 1);
    assert_eq!(dm.find_by_bus(BusType::Platform).len(), 1);
    assert_eq!(dm.all_devices().len(), 3);
    let lines = dm.print_tree();
    assert_eq!(lines.len(), 3);
    assert!(lines[0].contains("root"));
    // drivers
    let drv = dm.register_driver(DriverInfo {
        name: String::from("kbd"),
        supported_classes: vec![DeviceClass::Keyboard],
        supported_buses: vec![BusType::Platform],
    });
    assert_eq!(dm.bind_driver(kbd, drv), Ok(()));
    assert_eq!(dm.get_device(kbd).unwrap().state, DeviceState::Bound);
    assert_eq!(dm.bind_driver(kbd, drv), Err("Device already has a driver"));
    assert_eq!(dm.bind_driver(DeviceId(999), drv), Err("Device not found"));
    assert_eq!(dm.unbind_driver(kbd), Ok(()));
    assert!(!dm.get_device(kbd).unwrap().has_driver());
    // removal
    assert!(dm.unregister_device(blk).is_some());
    assert!(dm.get_device(blk).is_none());
    assert!(dm.unregister_device(blk).is_none());
    assert_eq!(dm.device_count(), 2);
}

#[test]
fn pci_functions_become_devices() {
    let mut ids = DeviceIdAllocator::new();
    let mut dm = DeviceManager::new(&mut ids);
    let d = probe_device(0, 4, 0, &xhci_config()).unwrap();
    let id = register_pci_device(&mut dm, &mut ids, &d);
    let dev = dm.get_device(id).unwrap();
    assert_eq!(dev.name, "pci-00:04.0");
    assert_eq!(dev.vendor_id, Some(0x1b36));
    assert_eq!(dev.class, DeviceClass::UsbController);
    assert_eq!(dev.resources.first_mmio().unwrap().phys_base, 0xfebf_0000);
    assert_eq!(dev.resources.first_irq(), Some(11));
    assert_eq!(dev.resources.mmio.len(), 1);
    assert_eq!(dev.resources.first_mmio().unwrap().size, 0x1000);
    assert_eq!(dev.resources.irqs.len(), 1);
    assert_eq!(dev.device_id, Some(0x000d));
}

#[test]
fn resources_and_devices() {
    let mut r = DeviceResources::empty();
    assert!(r.first_mmio().is_none());
    r.add_mmio(0x1000, 0x100);
    r.add_irq(5);
    r.add_irq(5);
    r.add_io_port(0x3f8, 8);
    assert_eq!(r.first_mmio().unwrap().size, 0x100);
    assert_eq!(r.first_irq(), Some(5));
    assert_eq!(r.irqs.len(), 1);
    assert_eq!(r.first_io_port().unwrap().base, 0x3f8);
    let mut d = Device::new(DeviceId(9), "x", DeviceClass::SerialPort, BusType::Platform, None);
    assert!(!d.is_ready());
    d.add_irq(4);
    assert_eq!(d.resources.first_irq(), Some(4));
    assert_eq!(DeviceId(9).to_text(), "dev:9");
    assert_eq!(DeviceClass::Unknown(3).name(), "unknown");
    assert_eq!(BusType::VirtIO.name(), "virtio");
}

#[test]
fn scan_order_and_registration() {
    let mut scan = PciScan::new();
    assert_eq!(scan.next_probe(), Some((0, 0, 0)));
    // a multifunction device at 00:00.0: its other functions come next
    let mut multi = xhci_config();
    multi[3] = 0x0080_0000;
    scan.record(&multi);
    assert_eq!(scan.next_probe(), Some((0, 0, 1)));
    let mut absent = vec![0u32; 16];
    absent[0] = 0xffff_ffff;
    for f in 1..7u8 {
        scan.record(&absent);
        assert_eq!(scan.next_probe(), Some((0, 0, f + 1)));
    }
    scan.record(&absent);
    assert_eq!(scan.next_probe(), Some((0, 1, 0)));
    // a single-function device: straight to the next slot
    scan.record(&xhci_config());
    assert_eq!(scan.next_probe(), Some((0, 2, 0)));
    // an empty slot 31 moves to the next bus
    let mut s2 = PciScan { position: Some((3, 31, 0)), devices: Vec::new() };
    s2.record(&absent);
    assert_eq!(s2.next_probe(), Some((4, 0, 0)));
    let mut s3 = PciScan { position: Some((255, 31, 0)), devices: Vec::new() };
    s3.record(&absent);
    assert_eq!(s3.next_probe(), None);
    assert_eq!(scan.devices.len(), 2);
    assert_eq!(scan.devices[1].device, 1);

    let mut ids = DeviceIdAllocator::new();
    let mut dm = DeviceManager::new(&mut ids);
    let mut reg = PciRegistry::new();
    pci::init(&mut reg, &mut dm, &mut ids, scan.devices);
    assert_eq!(reg.devices.len(), 2);
    assert_eq!(dm.device_count(), 3);
    assert_eq!(dm.find_by_bus(BusType::Pci).len(), 2);
}

#[test]
fn unregistering_takes_the_subtree_along() {
    let mut ids = DeviceIdAllocator::new();
    let mut dm = DeviceManager::new(&mut ids);
    let root = dm.root().unwrap();
    let hub = dm.register_device(Device::new(alloc_device_id(&mut ids), "hub", DeviceClass::UsbController, BusType::Usb, Some(root)));
    let port = dm.register_device(Device::new(alloc_device_id(&mut ids), "port", DeviceClass::UsbController, BusType::Usb, Some(hub)));
    let kbd = dm.register_device(Device::new(alloc_device_id(&mut ids), "kbd", DeviceClass::Keyboard, BusType::Usb, Some(port)));
    let other = dm.register_device(Device::new(alloc_device_id(&mut ids), "other", DeviceClass::Mouse, BusType::Usb, Some(root)));
    assert_eq!(dm.device_count(), 5);
    let removed = dm.unregister_device(hub).unwrap();
    assert!(removed.id == hub);
    assert!(dm.get_device(hub).is_none());
    assert!(dm.get_device(port).is_none());
    assert!(dm.get_device(kbd).is_none());
    assert!(dm.get_device(other).is_some());
    assert_eq!(dm.device_count(), 2);
    assert!(!dm.get_device(root).unwrap().children.contains(&hub));
    assert!(dm.get_device(root).unwrap().children.contains(&other));
}

#[test]
fn device_changed_in_place() {
    let mut ids = DeviceIdAllocator::new();
    let mut dm = DeviceManager::new(&mut ids);
    let kbd = register_platform_device(&mut dm, &mut ids, "ps2-kbd", DeviceClass::Keyboard);
    dm.get_device_mut(kbd).unwrap().state = DeviceState::Error;
    assert_eq!(dm.get_device(kbd).unwrap().state, DeviceState::Error);
    assert!(dm.get_device_mut(DeviceId(777)).is_none());
}
