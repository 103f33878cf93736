//! VirtIO: paravirtualized devices over the MMIO transport.
pub mod block;
pub mod features;
pub mod framebuffer;
pub mod gpu;
pub mod input;
pub mod mmio;
pub mod net;
pub mod queue;
pub mod status;

use vstd::prelude::*;
use self::mmio::MmioDevice;

verus! {

/// VirtIO device types.
#[derive(Debug, Clone, Copy, PartialEq, Eq, Structural)]
pub enum DeviceType {
    Invalid,
    Network,
    Block,
    Console,
    Entropy,
    Balloon,
    ScsiHost,
    Gpu,
    Input,
    Socket,
}

impl DeviceType {
    /// The type a device-id register value names; unknown ids are `Invalid`.
    pub open spec fn from_code(value: u32) -> DeviceType {
        if value == 1 {
            DeviceType::Network
        } else if value == 2 {
            DeviceType::Block
        } else if value == 3 {
            DeviceType::Console
        } else if value == 4 {
            DeviceType::Entropy
        } else if value == 5 {
            DeviceType::Balloon
        } else if value == 8 {
            DeviceType::ScsiHost
        } else if value == 16 {
            DeviceType::Gpu
        } else if value == 18 {
            DeviceType::Input
        } else if value == 19 {
            DeviceType::Socket
        } else {
            DeviceType::Invalid
        }
    }

    /// The device-id number of a type (0 for `Invalid`).
    pub open spec fn code(self) -> u32 {
        match self {
            DeviceType::Invalid => 0,
            DeviceType::Network => 1,
            DeviceType::Block => 2,
            DeviceType::Console => 3,
            DeviceType::Entropy => 4,
            DeviceType::Balloon => 5,
            DeviceType::ScsiHost => 8,
            DeviceType::Gpu => 16,
            DeviceType::Input => 18,
            DeviceType::Socket => 19,
        }
    }

    /// The type a device-id register value names.
    pub fn from_u32(value: u32) -> (t: DeviceType)
        ensures
            t == DeviceType::from_code(value),
    {
        match value {
            1 => DeviceType::Network,
            2 => DeviceType::Block,
            3 => DeviceType::Console,
            4 => DeviceType::Entropy,
            5 => DeviceType::Balloon,
            8 => DeviceType::ScsiHost,
            16 => DeviceType::Gpu,
            18 => DeviceType::Input,
            19 => DeviceType::Socket,
            _ => DeviceType::Invalid,
        }
    }

    /// The device-id number of the type.
    pub fn to_u32(self) -> (v: u32)
        ensures
            v == self.code(),
    {
        match self {
            DeviceType::Invalid => 0,
            DeviceType::Network => 1,
            DeviceType::Block => 2,
            DeviceType::Console => 3,
            DeviceType::Entropy => 4,
            DeviceType::Balloon => 5,
            DeviceType::ScsiHost => 8,
            DeviceType::Gpu => 16,
            DeviceType::Input => 18,
            DeviceType::Socket => 19,
        }
    }
}

/// Every valid type's number names it again.
pub proof fn law_device_type_roundtrip(t: DeviceType)
    ensures
        DeviceType::from_code(t.code()) == t,
{
}

/// The VirtIO devices found at start-up.
pub struct VirtioDevices {
    pub devices: Vec<MmioDevice>,
}

impl VirtioDevices {
    /// The devices found by probing.
    pub fn new(devices: Vec<MmioDevice>) -> (v: VirtioDevices)
        ensures
            v.devices@ == devices@,
    {
        VirtioDevices { devices }
    }

    /// How many devices were found.
    pub fn device_count(&self) -> (n: usize)
        ensures
            n == self.devices@.len(),
    {
        self.devices.len()
    }
}

} // verus!
