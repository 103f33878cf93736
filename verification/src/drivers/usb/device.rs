//! USB device management: device states, extended device records, hubs and
//! standard setup packets.
use vstd::prelude::*;
use super::descriptor::DeviceDescriptor;
use super::{UsbDevice, UsbClass, class_of_code};
use crate::text::{push_char, push_decimal, decimal};

verus! {

/// USB device state
#[derive(Debug, Clone, Copy, PartialEq, Eq, Structural)]
pub enum DeviceState {
    /// Device is not attached
    Detached,
    /// Device is attached but not addressed
    Attached,
    /// Device is powered
    Powered,
    /// Device has been reset
    Default,
    /// Device has been assigned an address
    Addressed,
    /// Device is configured
    Configured,
    /// Device is suspended
    Suspended,
}

/// USB device information (extended)
#[derive(Debug, Clone)]
pub struct UsbDeviceInfo {
    /// Basic device info
    pub device: UsbDevice,
    /// Device state
    pub state: DeviceState,
    /// Device descriptor
    pub device_descriptor: Option<DeviceDescriptor>,
    /// Active configuration
    pub active_config: u8,
    /// Number of interfaces
    pub num_interfaces: u8,
}

/// The version text of a BCD version word: major byte, minor nibble, patch nibble.
pub open spec fn usb_version_text(v: u16) -> Seq<char> {
    decimal((v / 256) as nat) + seq!['.'] + decimal(((v / 16) % 16) as nat) + seq!['.'] + decimal((v % 16) as nat)
}

impl UsbDeviceInfo {
    /// A freshly attached device with no descriptor read yet
    pub fn new(device: UsbDevice) -> (i: UsbDeviceInfo)
        ensures
            i == (UsbDeviceInfo {
                device,
                state: DeviceState::Attached,
                device_descriptor: None,
                active_config: 0,
                num_interfaces: 0,
            }),
    {
        UsbDeviceInfo { device, state: DeviceState::Attached, device_descriptor: None, active_config: 0, num_interfaces: 0 }
    }

    /// The USB version from the device descriptor, as `major.minor.patch`
    pub fn usb_version(&self) -> (r: Option<String>)
        ensures
            match self.device_descriptor {
                Some(d) => r is Some && r.unwrap()@ == usb_version_text(d.usb_version),
                None => r is None,
            },
    {
        match self.device_descriptor {
            Some(desc) => {
                let v = desc.usb_version;
                let major = (v >> 8) & 0xFF;
                let minor = (v >> 4) & 0x0F;
                let patch = v & 0x0F;
                assert(((v >> 8) & 0xFF == v / 256) && ((v >> 4) & 0x0F == (v / 16) % 16) && (v & 0x0F == v % 16)) by (bit_vector);
                let mut s = String::new();
                push_decimal(&mut s, major as u64);
                push_char(&mut s, '.');
                push_decimal(&mut s, minor as u64);
                push_char(&mut s, '.');
                push_decimal(&mut s, patch as u64);
                assert(s@ =~= usb_version_text(v));
                Some(s)
            },
            None => None,
        }
    }

    /// The device class: from the descriptor when one was read, else the record's
    pub fn class(&self) -> (c: UsbClass)
        ensures
            c == match self.device_descriptor {
                Some(d) => class_of_code(d.device_class),
                None => self.device.class,
            },
    {
        match self.device_descriptor {
            Some(desc) => UsbClass::from_u8(desc.device_class),
            None => self.device.class,
        }
    }
}

/// USB Hub
#[derive(Debug, Clone)]
pub struct UsbHub {
    /// Hub device
    pub device: UsbDevice,
    /// Number of downstream ports
    pub num_ports: u8,
    /// Power-on to power-good time (in 2ms units)
    pub power_on_time: u8,
    /// Hub controller current (in mA)
    pub hub_current: u16,
    /// Per-port power switching
    pub per_port_power: bool,
    /// Over-current protection mode
    pub overcurrent_protection: bool,
    /// Compound device
    pub compound: bool,
    /// Connected devices on each port
    pub downstream: Vec<Option<UsbDevice>>,
}

impl UsbHub {
    /// A hub with `num_ports` empty ports and default power settings
    pub fn new(device: UsbDevice, num_ports: u8) -> (h: UsbHub)
        ensures
            h.device == device,
            h.num_ports == num_ports,
            h.power_on_time == 100,
            h.hub_current == 100,
            h.per_port_power,
            h.overcurrent_protection,
            !h.compound,
            h.downstream@.len() == num_ports,
            forall|i: int| 0 <= i < num_ports ==> #[trigger] h.downstream@[i] is None,
    {
        let mut downstream: Vec<Option<UsbDevice>> = Vec::new();
        let mut i: u8 = 0;
        while i < num_ports
            invariant
                i <= num_ports,
                downstream@.len() == i,
                forall|j: int| 0 <= j < i ==> #[trigger] downstream@[j] is None,
            decreases num_ports - i,
        {
            downstream.push(None);
            i = i + 1;
        }
        UsbHub {
            device,
            num_ports,
            power_on_time: 100,
            hub_current: 100,
            per_port_power: true,
            overcurrent_protection: true,
            compound: false,
            downstream,
        }
    }

    /// Check if a port has a device connected
    pub fn is_port_connected(&self, port: u8) -> (b: bool)
        requires
            self.downstream@.len() == self.num_ports,
        ensures
            b == (port < self.num_ports && self.downstream@[port as int] is Some),
    {
        if port >= self.num_ports {
            return false;
        }
        self.downstream[port as usize].is_some()
    }

    /// Get device on a port
    pub fn get_port_device(&self, port: u8) -> (r: Option<&UsbDevice>)
        requires
            self.downstream@.len() == self.num_ports,
        ensures
            port >= self.num_ports ==> r is None,
            port < self.num_ports ==> match self.downstream@[port as int] {
                Some(d) => r == Some(&d),
                None => r is None,
            },
    {
        if port >= self.num_ports {
            return None;
        }
        self.downstream[port as usize].as_ref()
    }
}

/// Standard request: GET_STATUS
pub const GET_STATUS: u8 = 0;
/// Standard request: CLEAR_FEATURE
pub const CLEAR_FEATURE: u8 = 1;
/// Standard request: SET_FEATURE
pub const SET_FEATURE: u8 = 3;
/// Standard request: SET_ADDRESS
pub const SET_ADDRESS: u8 = 5;
/// Standard request: GET_DESCRIPTOR
pub const GET_DESCRIPTOR: u8 = 6;
/// Standard request: SET_DESCRIPTOR
pub const SET_DESCRIPTOR: u8 = 7;
/// Standard request: GET_CONFIGURATION
pub const GET_CONFIGURATION: u8 = 8;
/// Standard request: SET_CONFIGURATION
pub const SET_CONFIGURATION: u8 = 9;
/// Standard request: GET_INTERFACE
pub const GET_INTERFACE: u8 = 10;
/// Standard request: SET_INTERFACE
pub const SET_INTERFACE: u8 = 11;
/// Standard request: SYNCH_FRAME
pub const SYNCH_FRAME: u8 = 12;

/// USB Setup Packet
#[derive(Debug, Clone, Copy, PartialEq, Eq, Structural)]
pub struct SetupPacket {
    /// Request type
    pub request_type: u8,
    /// Request
    pub request: u8,
    /// Value
    pub value: u16,
    /// Index
    pub index: u16,
    /// Length
    pub length: u16,
}

/// Size of a setup packet in bytes
pub const SETUP_PACKET_SIZE: usize = 8;

impl SetupPacket {
    /// A GET_DESCRIPTOR request (device to host): type in the high byte of the value,
    /// index in the low byte
    pub fn get_descriptor(desc_type: u8, desc_index: u8, length: u16) -> (p: SetupPacket)
        ensures
            p == (SetupPacket {
                request_type: 0x80,
                request: GET_DESCRIPTOR,
                value: (desc_type * 256 + desc_index) as u16,
                index: 0,
                length,
            }),
    {
        let t = desc_type as u16;
        let i = desc_index as u16;
        assert(((t << 8) | i) == t * 256 + i) by (bit_vector)
            requires
                t < 256,
                i < 256,
        ;
        SetupPacket { request_type: 0x80, request: GET_DESCRIPTOR, value: (t << 8) | i, index: 0, length }
    }

    /// A SET_ADDRESS request (host to device)
    pub fn set_address(address: u8) -> (p: SetupPacket)
        ensures
            p == (SetupPacket { request_type: 0x00, request: SET_ADDRESS, value: address as u16, index: 0, length: 0 }),
    {
        SetupPacket { request_type: 0x00, request: SET_ADDRESS, value: address as u16, index: 0, length: 0 }
    }

    /// A SET_CONFIGURATION request (host to device)
    pub fn set_configuration(config: u8) -> (p: SetupPacket)
        ensures
            p == (SetupPacket { request_type: 0x00, request: SET_CONFIGURATION, value: config as u16, index: 0, length: 0 }),
    {
        SetupPacket { request_type: 0x00, request: SET_CONFIGURATION, value: config as u16, index: 0, length: 0 }
    }
}

} // verus!
