//! Devices in the device tree: identity, class, bus, place in the tree, state,
//! driver and resources.
use vstd::prelude::*;
use super::{DeviceClass, BusType, DriverId};
use super::resources::{DeviceResources, IoPortRange, IrqNumber, MmioRegion};
use crate::text::{push_str, push_decimal, decimal};

verus! {

/// Unique device identifier
#[derive(Clone, Copy, PartialEq, Eq, Structural)]
pub struct DeviceId(pub u64);

impl DeviceId {
    /// The identifier as text, `dev:` and its number
    pub fn to_text(&self) -> (s: String)
        ensures
            s@ == "dev:"@ + decimal(self.0 as nat),
    {
        let mut s = String::new();
        push_str(&mut s, "dev:");
        push_decimal(&mut s, self.0);
        s
    }
}

/// Device state in the lifecycle
#[derive(Debug, Clone, Copy, PartialEq, Eq, Structural)]
pub enum DeviceState {
    /// Device discovered but not registered
    Discovered,
    /// Device registered in device tree
    Registered,
    /// Driver bound to device
    Bound,
    /// Device initialized and ready
    Ready,
    /// Device suspended (power management)
    Suspended,
    /// Device has an error
    Error,
    /// Device removed
    Removed,
}

impl DeviceState {
    /// The state's name
    pub fn name(&self) -> (s: &'static str)
        ensures
            s@ == (match *self {
                DeviceState::Discovered => "Discovered"@,
                DeviceState::Registered => "Registered"@,
                DeviceState::Bound => "Bound"@,
                DeviceState::Ready => "Ready"@,
                DeviceState::Suspended => "Suspended"@,
                DeviceState::Error => "Error"@,
                DeviceState::Removed => "Removed"@,
            }),
    {
        match self {
            DeviceState::Discovered => "Discovered",
            DeviceState::Registered => "Registered",
            DeviceState::Bound => "Bound",
            DeviceState::Ready => "Ready",
            DeviceState::Suspended => "Suspended",
            DeviceState::Error => "Error",
            DeviceState::Removed => "Removed",
        }
    }
}

/// A device in the device tree
pub struct Device {
    /// Unique device ID
    pub id: DeviceId,
    /// Device name (e.g., "usb-hid-keyboard")
    pub name: String,
    /// Device class
    pub class: DeviceClass,
    /// Bus this device is attached to
    pub bus: BusType,
    /// Parent device (None for root)
    pub parent: Option<DeviceId>,
    /// Child devices
    pub children: Vec<DeviceId>,
    /// Device state
    pub state: DeviceState,
    /// Assigned driver
    pub driver: Option<DriverId>,
    /// Device resources (MMIO, IRQ, etc.)
    pub resources: DeviceResources,
    /// Vendor ID (for PCI/USB)
    pub vendor_id: Option<u16>,
    /// Device ID (for PCI/USB)
    pub device_id: Option<u16>,
    /// Device-specific data
    pub private_data: Option<usize>,
}

impl Device {
    /// A registered device with no children, driver, resources or IDs
    pub fn new(id: DeviceId, name: &str, class: DeviceClass, bus: BusType, parent: Option<DeviceId>) -> (d: Device)
        ensures
            d.id == id,
            d.name@ == name@,
            d.class == class,
            d.bus == bus,
            d.parent == parent,
            d.children@.len() == 0,
            d.state == DeviceState::Registered,
            d.driver is None,
            d.resources.mmio@.len() == 0,
            d.resources.irqs@.len() == 0,
            d.resources.dma@.len() == 0,
            d.resources.io_ports@.len() == 0,
            d.vendor_id is None,
            d.device_id is None,
            d.private_data is None,
    {
        Device {
            id,
            name: String::from_str(name),
            class,
            bus,
            parent,
            children: Vec::new(),
            state: DeviceState::Registered,
            driver: None,
            resources: DeviceResources::empty(),
            vendor_id: None,
            device_id: None,
            private_data: None,
        }
    }

    /// A PCI device with its vendor and device IDs
    pub fn new_pci(id: DeviceId, name: &str, class: DeviceClass, vendor: u16, device: u16, parent: Option<DeviceId>) -> (d: Device)
        ensures
            d.id == id,
            d.name@ == name@,
            d.class == class,
            d.bus == BusType::Pci,
            d.parent == parent,
            d.children@.len() == 0,
            d.state == DeviceState::Registered,
            d.driver is None,
            d.resources.mmio@.len() == 0,
            d.resources.irqs@.len() == 0,
            d.vendor_id == Some(vendor),
            d.device_id == Some(device),
    {
        let mut dev = Device::new(id, name, class, BusType::Pci, parent);
        dev.vendor_id = Some(vendor);
        dev.device_id = Some(device);
        dev
    }

    /// A USB device with its vendor and product IDs
    pub fn new_usb(id: DeviceId, name: &str, class: DeviceClass, vendor: u16, product: u16, parent: Option<DeviceId>) -> (d: Device)
        ensures
            d.id == id,
            d.name@ == name@,
            d.class == class,
            d.bus == BusType::Usb,
            d.parent == parent,
            d.children@.len() == 0,
            d.state == DeviceState::Registered,
            d.driver is None,
            d.vendor_id == Some(vendor),
            d.device_id == Some(product),
    {
        let mut dev = Device::new(id, name, class, BusType::Usb, parent);
        dev.vendor_id = Some(vendor);
        dev.device_id = Some(product);
        dev
    }

    /// Check if device has a driver
    pub fn has_driver(&self) -> (b: bool)
        ensures
            b == self.driver is Some,
    {
        self.driver.is_some()
    }

    /// Check if device is ready
    pub fn is_ready(&self) -> (b: bool)
        ensures
            b == (self.state == DeviceState::Ready),
    {
        self.state == DeviceState::Ready
    }

    /// Add MMIO resource
    pub fn add_mmio(&mut self, base: usize, size: usize)
        ensures
            final(self).resources.mmio@ == old(self).resources.mmio@.push(
                MmioRegion { phys_base: base, virt_base: None, size, cacheable: false },
            ),
            final(self).resources.irqs@ == old(self).resources.irqs@,
            final(self).resources.dma@ == old(self).resources.dma@,
            final(self).resources.io_ports@ == old(self).resources.io_ports@,
            *final(self) == (Device { resources: final(self).resources, ..*old(self) }),
    {
        self.resources.add_mmio(base, size);
    }

    /// Add IRQ resource (once)
    pub fn add_irq(&mut self, irq: IrqNumber)
        ensures
            final(self).resources.irqs@ == if old(self).resources.irqs@.contains(irq) {
                old(self).resources.irqs@
            } else {
                old(self).resources.irqs@.push(irq)
            },
            final(self).resources.mmio@ == old(self).resources.mmio@,
            final(self).resources.dma@ == old(self).resources.dma@,
            final(self).resources.io_ports@ == old(self).resources.io_ports@,
            *final(self) == (Device { resources: final(self).resources, ..*old(self) }),
    {
        self.resources.add_irq(irq);
    }

    /// Add I/O port resource (x86 only)
    pub fn add_io_port(&mut self, base: u16, size: u16)
        ensures
            final(self).resources.io_ports@ == old(self).resources.io_ports@.push(IoPortRange { base, size }),
            final(self).resources.mmio@ == old(self).resources.mmio@,
            final(self).resources.irqs@ == old(self).resources.irqs@,
            final(self).resources.dma@ == old(self).resources.dma@,
            *final(self) == (Device { resources: final(self).resources, ..*old(self) }),
    {
        self.resources.add_io_port(base, size);
    }
}

} // verus!
