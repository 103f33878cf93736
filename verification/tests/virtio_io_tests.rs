use kernel::drivers::block::BlockError;
use kernel::drivers::input::event::InputEventType;
use kernel::drivers::input::{pending_count, poll_event, InputSystem};
use kernel::drivers::virtio::block::{self, init_device, VirtioBlockDevice, FEATURE_BLK_SIZE, FEATURE_RO};
use kernel::drivers::virtio::input::{self, VirtioInput, VirtioInputEvent};
use kernel::drivers::virtio::mmio::{MmioDevice, VIRTIO_MAGIC};
use kernel::drivers::virtio::net::{self, VirtioNet, HEADER_SIZE};

fn blk(features: u64, buffers: &[u64]) -> VirtioBlockDevice {
    let dev = MmioDevice::new(0x1000, 1, VIRTIO_MAGIC, 2, 2).unwrap();
    init_device(dev, features, 100, 4096, 256, buffers).unwrap()
}

#[test]
fn block_device_setup() {
    let d = blk(0, &[0x10000, 0x20000]);
    assert_eq!(d.info(), (100, 512, false));
    assert_eq!(d.queue.size, 64);
    assert_eq!(d.buffers.len(), 2);
    assert_eq!(blk(FEATURE_BLK_SIZE | FEATURE_RO, &[]).info(), (100, 4096, true));
    let dev = MmioDevice::new(0x1000, 1, VIRTIO_MAGIC, 2, 2).unwrap();
    assert_eq!(init_device(dev, 0, 1, 512, 0, &[]).err(), Some("No queue available"));
    let some = Some(blk(0, &[]));
    assert_eq!(block::get_info(&some), Some((100, 512, false)));
    assert_eq!(block::get_info(&None), None);
}

#[test]
fn block_read_round_trip_through_the_queue() {
    let mut d = blk(0, &[0x10000]);
    let mut req = d.begin_read_sector(7, 512).unwrap();
    assert_eq!(req.buffer.header.sector, 7);
    assert_eq!(req.buffer.header.req_type, 0);
    assert_eq!(d.queue.num_free, 61);
    // the pool is now empty
    assert_eq!(d.begin_read_sector(8, 512).err(), Some(BlockError::NoBuffers));
    // the device fills in the data and the status, and returns the chain
    req.buffer.data[0] = 0xAB;
    req.buffer.data[511] = 0xCD;
    req.buffer.status = 0;
    d.queue.record_used(req.head as u32, 513);
    assert_eq!(d.queue.poll_used(), Some((req.head, 513)));
    let mut out = [0u8; 520];
    assert_eq!(d.complete_read_sector(req, &mut out), Ok(()));
    assert_eq!(out[0], 0xAB);
    assert_eq!(out[511], 0xCD);
    assert_eq!(d.buffers.len(), 1);
    assert_eq!(d.queue.num_free, 64);
}

#[test]
fn block_errors() {
    let mut d = blk(0, &[0x10000]);
    assert_eq!(d.begin_read_sector(100, 512).err(), Some(BlockError::InvalidSector));
    assert_eq!(d.begin_read_sector(0, 100).err(), Some(BlockError::BufferTooSmall));
    let mut req = d.begin_read_sector(0, 512).unwrap();
    req.buffer.status = 1;
    let mut out = [7u8; 512];
    assert_eq!(d.complete_read_sector(req, &mut out), Err(BlockError::IoError));
    assert_eq!(out, [7u8; 512]);
    let mut ro = blk(FEATURE_RO, &[0x10000]);
    assert_eq!(ro.begin_write_sector(0, &[0u8; 512]).err(), Some(BlockError::ReadOnly));
    let mut w = blk(0, &[0x10000]);
    assert_eq!(w.begin_write_sector(0, &[0u8; 10]).err(), Some(BlockError::BufferTooSmall));
    let mut req = w.begin_write_sector(3, &[5u8; 512]).unwrap();
    assert_eq!(req.buffer.header.req_type, 1);
    assert_eq!(req.buffer.data[0], 5);
    req.buffer.status = 0;
    assert_eq!(w.complete_write_sector(req), Ok(()));
}

#[test]
fn net_send_and_receive() {
    assert_eq!(VirtioNet::new(0x2000, VIRTIO_MAGIC, 2, 2, [0; 6]).err(), Some("Not a VirtIO network device"));
    let mut n = VirtioNet::new(0x2000, VIRTIO_MAGIC, 2, 1, [2, 0, 0, 0, 0, 1]).unwrap();
    assert!(!n.is_ready());
    assert_eq!(n.send(b"x", 0x9000).err(), Some("Device not ready"));
    let addrs: Vec<u64> = (0..16).map(|i| 0x10_0000 + i * 0x1000).collect();
    let w = n.init(0x20 | 0x1, (1, 2, 3), (4, 5, 6), &addrs).unwrap();
    assert!(!w.is_empty());
    assert!(n.is_ready());
    assert_eq!(n.mmio.features(), 0x20);
    assert_eq!(n.mac().0, [2, 0, 0, 0, 0, 1]);
    let frame = n.send(b"hello", 0x9000).unwrap();
    assert_eq!(frame.len(), HEADER_SIZE + 5);
    assert!(frame[..HEADER_SIZE].iter().all(|b| *b == 0));
    assert_eq!(&frame[HEADER_SIZE..], b"hello");
    assert_eq!(n.stats(), (0, 1, 0, 5));
    // nothing received yet
    assert_eq!(n.recv(), None);
    // the device writes a frame into receive buffer 3 and returns it
    for (k, b) in b"pong".iter().enumerate() {
        n.rx_buffers[3][HEADER_SIZE + k] = *b;
    }
    n.rx_queue.record_used(3, (HEADER_SIZE + 4) as u32);
    assert_eq!(n.recv(), Some(b"pong".to_vec()));
    assert_eq!(n.stats(), (1, 1, 4, 5));
    let mut opt = Some(n);
    assert!(net::is_available(&opt));
    assert_eq!(net::get_stats(&opt), Some((1, 1, 4, 5)));
    assert_eq!(net::recv_packet(&mut opt), None);
    let mut none: Option<VirtioNet> = None;
    assert!(net::send_packet(&mut none, b"x", 0).is_err());
}

#[test]
fn input_events_from_the_device() {
    let e = VirtioInputEvent { event_type: 1, code: 30, value: 1 };
    let ie = e.to_input_event(9);
    assert_eq!(ie.event_type, InputEventType::Key);
    assert_eq!((ie.code, ie.value, ie.timestamp), (30, 1, 9));
    assert_eq!(VirtioInputEvent { event_type: 9, code: 0, value: 0 }.to_input_event(0).event_type, InputEventType::Misc);
    assert_eq!(VirtioInput::new(0x3000, "kbd", VIRTIO_MAGIC, 2, 1).err(), Some("Not a VirtIO input device"));
    let mut d = VirtioInput::new(0x3000, "kbd", VIRTIO_MAGIC, 2, 18).unwrap();
    assert_eq!(d.name(), "kbd");
    assert_eq!(d.poll(0), None);
    let addrs: Vec<u64> = (0..16).map(|i| 0x20_0000 + i * 8).collect();
    assert!(d.init((1, 2, 3), (4, 5, 6), &addrs).is_ok());
    d.event_buffers[2] = VirtioInputEvent { event_type: 2, code: 0, value: 5 };
    d.event_queue.record_used(2, 8);
    let got = d.poll(4).unwrap();
    assert_eq!(got.event_type, InputEventType::Relative);
    assert_eq!(got.value, 5);
    assert_eq!(d.poll(5), None);
    let mut devs = vec![d];
    assert!(input::is_available(&devs));
    devs[0].event_buffers[0] = VirtioInputEvent { event_type: 1, code: 2, value: 1 };
    devs[0].event_queue.record_used(0, 8);
    let mut sys = InputSystem::new();
    input::poll_all(&mut devs, &mut sys, 10);
    assert_eq!(pending_count(&sys), 1);
    assert_eq!(poll_event(&mut sys).unwrap().code, 2);
}
