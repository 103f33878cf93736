use kernel::drivers::virtio::mmio::{probe_devices, MmioDevice, RegWrite, STATUS, VIRTIO_MAGIC};
use kernel::drivers::virtio::queue::desc_flags::{NEXT, WRITE};
use kernel::drivers::virtio::queue::VirtQueue;
use kernel::drivers::virtio::status::{DRIVER_OK, FEATURES_OK};
use kernel::drivers::virtio::DeviceType;

#[test]
fn device_type_codes_round_trip() {
    for t in [DeviceType::Network, DeviceType::Block, DeviceType::Gpu, DeviceType::Input, DeviceType::Socket] {
        assert_eq!(DeviceType::from_u32(t.to_u32()), t);
    }
    assert_eq!(DeviceType::from_u32(16), DeviceType::Gpu);
    assert_eq!(DeviceType::from_u32(6), DeviceType::Invalid);
}

#[test]
fn queue_starts_all_free() {
    let q = VirtQueue::new(0, 8);
    assert_eq!(q.size, 8);
    assert_eq!(q.num_free, 8);
    assert!(!q.is_full());
    assert!(!q.has_pending());
    let big = VirtQueue::new(1, 1024);
    assert_eq!(big.size, 256);
}

#[test]
fn queue_add_use_poll_frees_the_chain() {
    let mut q = VirtQueue::new(0, 4);
    let head = q.add_buffer(&[(0x1000, 16, false), (0x2000, 512, true), (0x3000, 1, true)]).unwrap();
    assert_eq!(head, 0);
    assert_eq!(q.num_free, 1);
    assert!(q.has_pending());
    // the chain is linked with NEXT and carries the directions
    assert_eq!(q.descriptors[0].addr, 0x1000);
    assert_eq!(q.descriptors[0].flags, NEXT);
    assert_eq!(q.descriptors[1].flags, NEXT | WRITE);
    assert_eq!(q.descriptors[2].flags, WRITE);
    assert_eq!(q.available.idx, 1);
    assert_eq!(q.available.ring[0], 0);
    // nothing used yet
    assert_eq!(q.poll_used(), None);
    // the device finishes the chain
    q.record_used(head as u32, 513);
    assert_eq!(q.poll_used(), Some((head, 513)));
    assert_eq!(q.num_free, 4);
    assert!(!q.has_pending());
    assert_eq!(q.poll_used(), None);
}

#[test]
fn queue_refusals() {
    let mut q = VirtQueue::new(0, 2);
    assert_eq!(q.add_buffer(&[]), Err("Empty buffer list"));
    assert_eq!(
        q.add_buffer(&[(1, 1, false), (2, 2, false), (3, 3, false)]),
        Err("Not enough descriptors")
    );
    assert_eq!(q.num_free, 2);
    assert!(q.add_buffer(&[(1, 1, false), (2, 2, false)]).is_ok());
    assert!(q.is_full());
    assert_eq!(q.add_buffer(&[(1, 1, false)]), Err("Not enough descriptors"));
}

#[test]
fn queue_unknown_used_id_frees_nothing() {
    let mut q = VirtQueue::new(0, 4);
    let _ = q.add_buffer(&[(1, 1, false)]).unwrap();
    q.record_used(3, 7);
    assert_eq!(q.poll_used(), Some((3, 7)));
    assert_eq!(q.num_free, 3);
    assert!(q.has_pending());
}

#[test]
fn mmio_probe() {
    let d = MmioDevice::new(0x0a00_0000, 48, VIRTIO_MAGIC, 2, 2).unwrap();
    assert_eq!(d.device_type(), DeviceType::Block);
    assert_eq!(d.base_addr(), 0x0a00_0000);
    assert_eq!(d.irq(), 48);
    assert_eq!(MmioDevice::new(0, 0, 0x1234, 2, 2), None);
    assert_eq!(MmioDevice::new(0, 0, VIRTIO_MAGIC, 2, 0), None);
    assert_eq!(MmioDevice::new(0, 0, VIRTIO_MAGIC, 7, 1), None);
    assert_eq!(MmioDevice::probe(0, 0, 2, 1), Err("No VirtIO device at this address"));
    let found = probe_devices(&[
        (0x100, 1, VIRTIO_MAGIC, 2, 1),
        (0x200, 2, VIRTIO_MAGIC, 2, 0),
        (0x300, 3, VIRTIO_MAGIC, 1, 16),
    ]);
    assert_eq!(found.len(), 2);
    assert_eq!(found[0].device_type(), DeviceType::Network);
    assert_eq!(found[1].device_type(), DeviceType::Gpu);
}

#[test]
fn mmio_registers_and_features() {
    let mut d = MmioDevice::new(0x1000, 1, VIRTIO_MAGIC, 2, 1).unwrap();
    assert_eq!(d.reset(), RegWrite { offset: STATUS, value: 0 });
    assert_eq!(d.finish_init(3), RegWrite { offset: STATUS, value: 3 | DRIVER_OK });
    assert_eq!(MmioDevice::read_features(0x10, 0x1), 0x1_0000_0010);
    let (lo, hi) = d.set_queue_desc(0x1_2345_6789);
    assert_eq!(lo.value, 0x2345_6789);
    assert_eq!(hi.value, 1);
    // VERSION_1 (bit 32) is kept when offered; unrequested features are dropped
    let offered: u64 = (1 << 32) | 0b111;
    assert_eq!(d.init_device(0b001, offered, FEATURES_OK), Ok((1 << 32) | 1));
    assert_eq!(d.features(), (1 << 32) | 1);
    assert_eq!(d.init_device(0b001, offered, 0), Err("Device did not accept features"));
    let w = d.write_features(0x1_0000_0002);
    assert_eq!(w.len(), 4);
    assert_eq!(w[1].value, 2);
    assert_eq!(w[3].value, 1);
}
