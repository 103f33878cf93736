//! The MMIO transport: which device sits in a register window, and the register
//! writes that configure and drive it.
//!
//! Reading and writing the registers themselves is the caller's I/O: the functions
//! here take the values read and give back the writes to make, in order.
use vstd::prelude::*;
use super::{DeviceType, status, features};
use super::queue::VirtQueue;

verus! {

pub const MAGIC_VALUE: usize = 0x000;
pub const VERSION: usize = 0x004;
pub const DEVICE_ID: usize = 0x008;
pub const VENDOR_ID: usize = 0x00C;
pub const DEVICE_FEATURES: usize = 0x010;
pub const DEVICE_FEATURES_SEL: usize = 0x014;
pub const DRIVER_FEATURES: usize = 0x020;
pub const DRIVER_FEATURES_SEL: usize = 0x024;
pub const QUEUE_SEL: usize = 0x030;
pub const QUEUE_NUM_MAX: usize = 0x034;
pub const QUEUE_NUM: usize = 0x038;
pub const QUEUE_READY: usize = 0x044;
pub const QUEUE_NOTIFY: usize = 0x050;
pub const INTERRUPT_STATUS: usize = 0x060;
pub const INTERRUPT_ACK: usize = 0x064;
pub const STATUS: usize = 0x070;
pub const QUEUE_DESC_LOW: usize = 0x080;
pub const QUEUE_DESC_HIGH: usize = 0x084;
pub const QUEUE_DRIVER_LOW: usize = 0x090;
pub const QUEUE_DRIVER_HIGH: usize = 0x094;
pub const QUEUE_DEVICE_LOW: usize = 0x0A0;
pub const QUEUE_DEVICE_HIGH: usize = 0x0A4;
pub const CONFIG_GENERATION: usize = 0x0FC;
pub const CONFIG: usize = 0x100;

/// The magic value of a VirtIO window ("virt").
pub const VIRTIO_MAGIC: u32 = 0x74726976;
/// Transport versions accepted.
pub const VIRTIO_VERSION_LEGACY: u32 = 1;
pub const VIRTIO_VERSION_MODERN: u32 = 2;

/// One 32-bit register write: the offset in the window and the value.
#[derive(Debug, Clone, Copy, PartialEq, Eq, Structural)]
pub struct RegWrite {
    pub offset: usize,
    pub value: u32,
}

/// A VirtIO device found in an MMIO window.
#[derive(Debug, Clone, Copy, PartialEq, Eq, Structural)]
pub struct MmioDevice {
    pub base: usize,
    pub irq: u32,
    pub device_type: DeviceType,
    /// Features negotiated with the device (0 until written).
    pub features: u64,
}

/// The low and high 32 bits of a 64-bit value.
pub open spec fn low_half(a: u64) -> u32 {
    (a % 0x1_0000_0000) as u32
}

pub open spec fn high_half(a: u64) -> u32 {
    (a / 0x1_0000_0000) as u32
}

/// Splits a 64-bit value into its low and high 32 bits.
fn split_u64(a: u64) -> (r: (u32, u32))
    ensures
        r.0 == low_half(a),
        r.1 == high_half(a),
{
    assert(((a as u32) as int == a % 0x1_0000_0000) && (((a >> 32u64) as u32) as int == a / 0x1_0000_0000)) by (bit_vector);
    (a as u32, (a >> 32) as u32)
}

/// The device a window holds, from its magic, version and device-id registers:
/// none unless the magic matches, the version is 1 or 2 and the id is not 0.
pub open spec fn device_at(base: usize, irq: u32, magic: u32, version: u32, device_id: u32) -> Option<MmioDevice> {
    if magic != VIRTIO_MAGIC || (version != VIRTIO_VERSION_LEGACY && version != VIRTIO_VERSION_MODERN) || device_id
        == 0 {
        None
    } else {
        Some(MmioDevice { base, irq, device_type: DeviceType::from_code(device_id), features: 0 })
    }
}

/// The devices found in the windows, in window order.
pub open spec fn devices_found(slots: Seq<(usize, u32, u32, u32, u32)>) -> Seq<MmioDevice>
    decreases slots.len(),
{
    if slots.len() == 0 {
        Seq::empty()
    } else {
        let rest = devices_found(slots.drop_last());
        let s = slots.last();
        match device_at(s.0, s.1, s.2, s.3, s.4) {
            Some(d) => rest.push(d),
            None => rest,
        }
    }
}

/// The features a driver takes: those the device offers among the required ones
/// and `VERSION_1`.
pub open spec fn negotiated_features(device_features: u64, required: u64) -> u64 {
    device_features & (required | features::VERSION_1)
}

impl MmioDevice {
    /// The device in the window at `base`, given the values of its magic, version
    /// and device-id registers.
    pub fn new(base: usize, irq: u32, magic: u32, version: u32, device_id: u32) -> (r: Option<MmioDevice>)
        ensures
            r == device_at(base, irq, magic, version, device_id),
    {
        if magic != VIRTIO_MAGIC {
            return None;
        }
        if version != VIRTIO_VERSION_LEGACY && version != VIRTIO_VERSION_MODERN {
            return None;
        }
        if device_id == 0 {
            return None;
        }
        Some(MmioDevice { base, irq, device_type: DeviceType::from_u32(device_id), features: 0 })
    }

    /// The device at `base` (interrupt 0), or an error when there is none.
    pub fn probe(base: usize, magic: u32, version: u32, device_id: u32) -> (r: Result<MmioDevice, &'static str>)
        ensures
            r == (match device_at(base, 0, magic, version, device_id) {
                Some(d) => Ok::<MmioDevice, &'static str>(d),
                None => Err::<MmioDevice, &'static str>("No VirtIO device at this address"),
            }),
    {
        match MmioDevice::new(base, 0, magic, version, device_id) {
            Some(d) => Ok(d),
            None => Err("No VirtIO device at this address"),
        }
    }

    /// The device-id number of the device's type.
    pub fn device_id(&self) -> (id: u32)
        ensures
            id == self.device_type.code(),
    {
        self.device_type.to_u32()
    }

    /// Replace the status register.
    pub fn set_status(&self, status: u32) -> (w: RegWrite)
        ensures
            w == (RegWrite { offset: STATUS, value: status }),
    {
        RegWrite { offset: STATUS, value: status }
    }

    /// Write the status register.
    pub fn write_status(&self, status: u32) -> (w: RegWrite)
        ensures
            w == (RegWrite { offset: STATUS, value: status }),
    {
        RegWrite { offset: STATUS, value: status }
    }

    /// Reset the device: status 0.
    pub fn reset(&self) -> (w: RegWrite)
        ensures
            w == (RegWrite { offset: STATUS, value: 0 }),
    {
        RegWrite { offset: STATUS, value: 0 }
    }

    /// Add `flag` to the status `current` read from the device.
    pub fn add_status(&self, current: u32, flag: u32) -> (w: RegWrite)
        ensures
            w == (RegWrite { offset: STATUS, value: current | flag }),
    {
        RegWrite { offset: STATUS, value: current | flag }
    }

    /// Select a queue.
    pub fn select_queue(&self, idx: u16) -> (w: RegWrite)
        ensures
            w == (RegWrite { offset: QUEUE_SEL, value: idx as u32 }),
    {
        RegWrite { offset: QUEUE_SEL, value: idx as u32 }
    }

    /// Set the selected queue's size.
    pub fn set_queue_size(&self, size: u16) -> (w: RegWrite)
        ensures
            w == (RegWrite { offset: QUEUE_NUM, value: size as u32 }),
    {
        RegWrite { offset: QUEUE_NUM, value: size as u32 }
    }

    /// Set the selected queue's descriptor-table address, low half then high.
    pub fn set_queue_desc(&self, addr: u64) -> (w: (RegWrite, RegWrite))
        ensures
            w.0 == (RegWrite { offset: QUEUE_DESC_LOW, value: low_half(addr) }),
            w.1 == (RegWrite { offset: QUEUE_DESC_HIGH, value: high_half(addr) }),
    {
        let (lo, hi) = split_u64(addr);
        (RegWrite { offset: QUEUE_DESC_LOW, value: lo }, RegWrite { offset: QUEUE_DESC_HIGH, value: hi })
    }

    /// Set the selected queue's available-ring address, low half then high.
    pub fn set_queue_avail(&self, addr: u64) -> (w: (RegWrite, RegWrite))
        ensures
            w.0 == (RegWrite { offset: QUEUE_DRIVER_LOW, value: low_half(addr) }),
            w.1 == (RegWrite { offset: QUEUE_DRIVER_HIGH, value: high_half(addr) }),
    {
        let (lo, hi) = split_u64(addr);
        (RegWrite { offset: QUEUE_DRIVER_LOW, value: lo }, RegWrite { offset: QUEUE_DRIVER_HIGH, value: hi })
    }

    /// Set the selected queue's used-ring address, low half then high.
    pub fn set_queue_used(&self, addr: u64) -> (w: (RegWrite, RegWrite))
        ensures
            w.0 == (RegWrite { offset: QUEUE_DEVICE_LOW, value: low_half(addr) }),
            w.1 == (RegWrite { offset: QUEUE_DEVICE_HIGH, value: high_half(addr) }),
    {
        let (lo, hi) = split_u64(addr);
        (RegWrite { offset: QUEUE_DEVICE_LOW, value: lo }, RegWrite { offset: QUEUE_DEVICE_HIGH, value: hi })
    }

    /// Mark the selected queue ready.
    pub fn enable_queue(&self) -> (w: RegWrite)
        ensures
            w == (RegWrite { offset: QUEUE_READY, value: 1 }),
    {
        RegWrite { offset: QUEUE_READY, value: 1 }
    }

    /// Tell the device a queue has new buffers.
    pub fn notify(&self, queue_idx: u16) -> (w: RegWrite)
        ensures
            w == (RegWrite { offset: QUEUE_NOTIFY, value: queue_idx as u32 }),
    {
        RegWrite { offset: QUEUE_NOTIFY, value: queue_idx as u32 }
    }

    /// Tell the device a queue has new buffers.
    pub fn notify_queue(&self, queue_idx: u16) -> (w: RegWrite)
        ensures
            w == (RegWrite { offset: QUEUE_NOTIFY, value: queue_idx as u32 }),
    {
        RegWrite { offset: QUEUE_NOTIFY, value: queue_idx as u32 }
    }

    /// Acknowledge the interrupts in `status`.
    pub fn ack_interrupt(&self, status: u32) -> (w: RegWrite)
        ensures
            w == (RegWrite { offset: INTERRUPT_ACK, value: status }),
    {
        RegWrite { offset: INTERRUPT_ACK, value: status }
    }

    /// The window's base address.
    pub fn base_addr(&self) -> (b: usize)
        ensures
            b == self.base,
    {
        self.base
    }

    /// The device's interrupt.
    pub fn irq(&self) -> (i: u32)
        ensures
            i == self.irq,
    {
        self.irq
    }

    /// The device's type.
    pub fn device_type(&self) -> (t: DeviceType)
        ensures
            t == self.device_type,
    {
        self.device_type
    }

    /// The 64 feature bits offered, from the two 32-bit words read with
    /// `DEVICE_FEATURES_SEL` at 0 and at 1.
    pub fn read_features(low: u32, high: u32) -> (f: u64)
        ensures
            f == low as int + high as int * 0x1_0000_0000,
    {
        let l = low as u64;
        let h = high as u64;
        proof {
            crate::bits::lemma_join_halves();
        }
        assert(l | (h << 32u64) == l + h * 0x1_0000_0000);
        l | (h << 32)
    }

    /// Records `features` as negotiated and gives the writes that tell the device:
    /// select word 0, write the low half, select word 1, write the high half.
    pub fn write_features(&mut self, features: u64) -> (w: Vec<RegWrite>)
        ensures
            *final(self) == (MmioDevice { features, ..*old(self) }),
            w@ == seq![
                RegWrite { offset: DRIVER_FEATURES_SEL, value: 0 },
                RegWrite { offset: DRIVER_FEATURES, value: low_half(features) },
                RegWrite { offset: DRIVER_FEATURES_SEL, value: 1 },
                RegWrite { offset: DRIVER_FEATURES, value: high_half(features) },
            ],
    {
        let (lo, hi) = split_u64(features);
        let mut w: Vec<RegWrite> = Vec::new();
        w.push(RegWrite { offset: DRIVER_FEATURES_SEL, value: 0 });
        w.push(RegWrite { offset: DRIVER_FEATURES, value: lo });
        w.push(RegWrite { offset: DRIVER_FEATURES_SEL, value: 1 });
        w.push(RegWrite { offset: DRIVER_FEATURES, value: hi });
        self.features = features;
        w
    }

    /// The negotiated features.
    pub fn features(&self) -> (f: u64)
        ensures
            f == self.features,
    {
        self.features
    }

    /// The maximum size of the selected queue, from its `QUEUE_NUM_MAX` register.
    pub fn queue_max_size(raw: u32) -> (s: u16)
        ensures
            s == raw as u16,
    {
        raw as u16
    }

    /// The writes that configure `queue` on the device, whose tables are at the
    /// given addresses: select it, set its size, the three table addresses (low
    /// half then high), and mark it ready.
    pub fn setup_queue(&self, queue: &VirtQueue, desc_addr: u64, driver_addr: u64, device_addr: u64) -> (w: Vec<
        RegWrite,
    >)
        ensures
            w@ == seq![
                RegWrite { offset: QUEUE_SEL, value: queue.index as u32 },
                RegWrite { offset: QUEUE_NUM, value: queue.size as u32 },
                RegWrite { offset: QUEUE_DESC_LOW, value: low_half(desc_addr) },
                RegWrite { offset: QUEUE_DESC_HIGH, value: high_half(desc_addr) },
                RegWrite { offset: QUEUE_DRIVER_LOW, value: low_half(driver_addr) },
                RegWrite { offset: QUEUE_DRIVER_HIGH, value: high_half(driver_addr) },
                RegWrite { offset: QUEUE_DEVICE_LOW, value: low_half(device_addr) },
                RegWrite { offset: QUEUE_DEVICE_HIGH, value: high_half(device_addr) },
                RegWrite { offset: QUEUE_READY, value: 1 },
            ],
    {
        let mut w: Vec<RegWrite> = Vec::new();
        w.push(self.select_queue(queue.index));
        w.push(self.set_queue_size(queue.size));
        let (a, b) = self.set_queue_desc(desc_addr);
        w.push(a);
        w.push(b);
        let (a, b) = self.set_queue_avail(driver_addr);
        w.push(a);
        w.push(b);
        let (a, b) = self.set_queue_used(device_addr);
        w.push(a);
        w.push(b);
        w.push(self.enable_queue());
        w
    }

    /// Feature negotiation: takes, of the features the device offers, the required
    /// ones and `VERSION_1`, and records them; then succeeds with them when the
    /// status read back after setting `FEATURES_OK` still has it, and fails otherwise.
    pub fn init_device(&mut self, required_features: u64, device_features: u64, status_after: u32) -> (r: Result<
        u64,
        &'static str,
    >)
        ensures
            *final(self) == (MmioDevice {
                features: negotiated_features(device_features, required_features),
                ..*old(self)
            }),
            r == (if status_after & status::FEATURES_OK == 0 {
                Err::<u64, &'static str>("Device did not accept features")
            } else {
                Ok::<u64, &'static str>(negotiated_features(device_features, required_features))
            }),
    {
        let negotiated = device_features & (required_features | features::VERSION_1);
        let _ = self.write_features(negotiated);
        if status_after & status::FEATURES_OK == 0 {
            return Err("Device did not accept features");
        }
        Ok(negotiated)
    }

    /// Mark the device ready: `DRIVER_OK` added to the status `current`.
    pub fn finish_init(&self, current: u32) -> (w: RegWrite)
        ensures
            w == (RegWrite { offset: STATUS, value: current | status::DRIVER_OK }),
    {
        self.add_status(current, status::DRIVER_OK)
    }
}

/// The devices in the given windows (base, interrupt, and the magic, version and
/// device-id register values), in order, skipping empty ones.
pub fn probe_devices(slots: &[(usize, u32, u32, u32, u32)]) -> (r: Vec<MmioDevice>)
    ensures
        r@ == devices_found(slots@),
{
    let mut devices: Vec<MmioDevice> = Vec::new();
    let mut i: usize = 0;
    while i < slots.len()
        invariant
            i <= slots@.len(),
            devices@ == devices_found(slots@.take(i as int)),
        decreases slots@.len() - i,
    {
        let (base, irq, magic, version, id) = slots[i];
        proof {
            assert(slots@.take(i + 1).drop_last() =~= slots@.take(i as int));
        }
        match MmioDevice::new(base, irq, magic, version, id) {
            Some(d) => devices.push(d),
            None => {},
        }
        i = i + 1;
    }
    assert(slots@.take(slots@.len() as int) =~= slots@);
    devices
}

} // verus!
