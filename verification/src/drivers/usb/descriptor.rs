//! USB descriptors: device, configuration, interface, endpoint, string and HID.
use vstd::prelude::*;

verus! {

/// USB descriptor types
#[derive(Debug, Clone, Copy, PartialEq, Eq, Structural)]
pub enum DescriptorType {
    Device,
    Configuration,
    String,
    Interface,
    Endpoint,
    DeviceQualifier,
    OtherSpeedConfig,
    InterfacePower,
    Otg,
    Debug,
    InterfaceAssociation,
    Bos,
    DeviceCapability,
    SuperSpeedEndpointCompanion,
    SuperSpeedPlusIsochEndpointCompanion,
}

impl DescriptorType {
    pub open spec fn spec_code(self) -> u8 {
        match self {
            DescriptorType::Device => 1,
            DescriptorType::Configuration => 2,
            DescriptorType::String => 3,
            DescriptorType::Interface => 4,
            DescriptorType::Endpoint => 5,
            DescriptorType::DeviceQualifier => 6,
            DescriptorType::OtherSpeedConfig => 7,
            DescriptorType::InterfacePower => 8,
            DescriptorType::Otg => 9,
            DescriptorType::Debug => 10,
            DescriptorType::InterfaceAssociation => 11,
            DescriptorType::Bos => 15,
            DescriptorType::DeviceCapability => 16,
            DescriptorType::SuperSpeedEndpointCompanion => 48,
            DescriptorType::SuperSpeedPlusIsochEndpointCompanion => 49,
        }
    }

    /// The descriptor type code
    pub fn code(self) -> (c: u8)
        ensures
            c == self.spec_code(),
    {
        match self {
            DescriptorType::Device => 1,
            DescriptorType::Configuration => 2,
            DescriptorType::String => 3,
            DescriptorType::Interface => 4,
            DescriptorType::Endpoint => 5,
            DescriptorType::DeviceQualifier => 6,
            DescriptorType::OtherSpeedConfig => 7,
            DescriptorType::InterfacePower => 8,
            DescriptorType::Otg => 9,
            DescriptorType::Debug => 10,
            DescriptorType::InterfaceAssociation => 11,
            DescriptorType::Bos => 15,
            DescriptorType::DeviceCapability => 16,
            DescriptorType::SuperSpeedEndpointCompanion => 48,
            DescriptorType::SuperSpeedPlusIsochEndpointCompanion => 49,
        }
    }
}

/// USB Device Descriptor
#[derive(Debug, Clone, Copy)]
pub struct DeviceDescriptor {
    pub length: u8,
    pub descriptor_type: u8,
    pub usb_version: u16,
    pub device_class: u8,
    pub device_subclass: u8,
    pub device_protocol: u8,
    pub max_packet_size0: u8,
    pub vendor_id: u16,
    pub product_id: u16,
    pub device_version: u16,
    pub manufacturer_idx: u8,
    pub product_idx: u8,
    pub serial_number_idx: u8,
    pub num_configurations: u8,
}

/// Size of a device descriptor in bytes
pub const DEVICE_DESCRIPTOR_SIZE: u8 = 18;

/// USB Configuration Descriptor
#[derive(Debug, Clone, Copy)]
pub struct ConfigurationDescriptor {
    pub length: u8,
    pub descriptor_type: u8,
    pub total_length: u16,
    pub num_interfaces: u8,
    pub configuration_value: u8,
    pub configuration_idx: u8,
    pub attributes: u8,
    pub max_power: u8,
}

/// Size of a configuration descriptor in bytes
pub const CONFIGURATION_DESCRIPTOR_SIZE: u8 = 9;

impl ConfigurationDescriptor {
    /// Check if bus-powered (attribute bit 7)
    pub fn is_bus_powered(&self) -> (b: bool)
        ensures
            b == (self.attributes >= 0x80),
    {
        let a = self.attributes;
        proof {
            crate::bits::lemma_byte_bits();
        }
        assert(((a & 0x80) != 0) == (a >= 0x80));
        (a & 0x80) != 0
    }

    /// Check if self-powered (attribute bit 6)
    pub fn is_self_powered(&self) -> (b: bool)
        ensures
            b == ((self.attributes / 0x40) % 2 == 1),
    {
        let a = self.attributes;
        proof {
            crate::bits::lemma_byte_bits();
        }
        assert(((a & 0x40) != 0) == ((a / 0x40) % 2 == 1));
        (a & 0x40) != 0
    }

    /// Check if supports remote wakeup (attribute bit 5)
    pub fn supports_remote_wakeup(&self) -> (b: bool)
        ensures
            b == ((self.attributes / 0x20) % 2 == 1),
    {
        let a = self.attributes;
        proof {
            crate::bits::lemma_byte_bits();
        }
        assert(((a & 0x20) != 0) == ((a / 0x20) % 2 == 1));
        (a & 0x20) != 0
    }

    /// Get max power in mA (the descriptor counts in units of 2 mA)
    pub fn max_power_ma(&self) -> (p: u16)
        ensures
            p == self.max_power * 2,
    {
        self.max_power as u16 * 2
    }
}

/// USB Interface Descriptor
#[derive(Debug, Clone, Copy)]
pub struct InterfaceDescriptor {
    pub length: u8,
    pub descriptor_type: u8,
    pub interface_number: u8,
    pub alternate_setting: u8,
    pub num_endpoints: u8,
    pub interface_class: u8,
    pub interface_subclass: u8,
    pub interface_protocol: u8,
    pub interface_idx: u8,
}

/// Size of an interface descriptor in bytes
pub const INTERFACE_DESCRIPTOR_SIZE: u8 = 9;

/// USB Endpoint Descriptor
#[derive(Debug, Clone, Copy)]
pub struct EndpointDescriptor {
    pub length: u8,
    pub descriptor_type: u8,
    pub endpoint_address: u8,
    pub attributes: u8,
    pub max_packet_size: u16,
    pub interval: u8,
}

/// Size of an endpoint descriptor in bytes
pub const ENDPOINT_DESCRIPTOR_SIZE: u8 = 7;

/// The transfer type the two low attribute bits name.
pub open spec fn transfer_type_of(attributes: u8) -> EndpointTransferType {
    let t = attributes % 4;
    if t == 0 {
        EndpointTransferType::Control
    } else if t == 1 {
        EndpointTransferType::Isochronous
    } else if t == 2 {
        EndpointTransferType::Bulk
    } else {
        EndpointTransferType::Interrupt
    }
}

impl EndpointDescriptor {
    /// Get endpoint number (the low four address bits)
    pub fn number(&self) -> (n: u8)
        ensures
            n == self.endpoint_address % 16,
    {
        let a = self.endpoint_address;
        proof {
            crate::bits::lemma_byte_bits();
        }
        assert(a & 0x0F == a % 16);
        a & 0x0F
    }

    /// Check if IN endpoint (address bit 7)
    pub fn is_in(&self) -> (b: bool)
        ensures
            b == (self.endpoint_address >= 0x80),
    {
        let a = self.endpoint_address;
        proof {
            crate::bits::lemma_byte_bits();
        }
        assert(((a & 0x80) != 0) == (a >= 0x80));
        (a & 0x80) != 0
    }

    /// Check if OUT endpoint
    pub fn is_out(&self) -> (b: bool)
        ensures
            b == (self.endpoint_address < 0x80),
    {
        !self.is_in()
    }

    /// Get transfer type
    pub fn transfer_type(&self) -> (t: EndpointTransferType)
        ensures
            t == transfer_type_of(self.attributes),
    {
        let a = self.attributes;
        proof {
            crate::bits::lemma_byte_bits();
        }
        assert(a & 0x03 == a % 4);
        let bits = a & 0x03;
        if bits == 0 {
            EndpointTransferType::Control
        } else if bits == 1 {
            EndpointTransferType::Isochronous
        } else if bits == 2 {
            EndpointTransferType::Bulk
        } else {
            EndpointTransferType::Interrupt
        }
    }
}

/// Endpoint transfer types
#[derive(Debug, Clone, Copy, PartialEq, Eq, Structural)]
pub enum EndpointTransferType {
    Control,
    Isochronous,
    Bulk,
    Interrupt,
}

/// USB String Descriptor (first 2 bytes)
#[derive(Debug, Clone, Copy)]
pub struct StringDescriptorHeader {
    pub length: u8,
    pub descriptor_type: u8,
}

/// HID Descriptor
#[derive(Debug, Clone, Copy)]
pub struct HidDescriptor {
    pub length: u8,
    pub descriptor_type: u8,
    pub hid_version: u16,
    pub country_code: u8,
    pub num_descriptors: u8,
    pub report_descriptor_type: u8,
    pub report_descriptor_length: u16,
}

/// Size of a HID descriptor in bytes
pub const HID_DESCRIPTOR_SIZE: u8 = 9;

} // verus!
