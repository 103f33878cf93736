//! PCI: configuration space addressing and field extraction, device records,
//! and the registry of discovered devices.
//!
//! Configuration space is read and written by the caller (port I/O); the functions
//! here take the values read.
use vstd::prelude::*;
use crate::drivers::device::{BusType, DeviceClass, DeviceManager, DeviceIdAllocator, alloc_device_id, has_id, pos_of,
    others_kept};
use crate::drivers::device::tree::{Device, DeviceId};
use crate::drivers::device::resources::MmioRegion;
use crate::drivers::net::hex2;
use crate::text::{push_char, push_decimal, push_str, decimal};

verus! {

/// Invalid vendor ID (indicates no device)
pub const PCI_VENDOR_INVALID: u16 = 0xFFFF;

/// Class code: unclassified
pub const CLASS_UNCLASSIFIED: u8 = 0x00;
/// Class code: mass storage
pub const CLASS_MASS_STORAGE: u8 = 0x01;
/// Class code: network
pub const CLASS_NETWORK: u8 = 0x02;
/// Class code: display
pub const CLASS_DISPLAY: u8 = 0x03;
/// Class code: multimedia
pub const CLASS_MULTIMEDIA: u8 = 0x04;
/// Class code: memory
pub const CLASS_MEMORY: u8 = 0x05;
/// Class code: bridge
pub const CLASS_BRIDGE: u8 = 0x06;
/// Class code: simple communication
pub const CLASS_SIMPLE_COMM: u8 = 0x07;
/// Class code: base peripheral
pub const CLASS_BASE_PERIPHERAL: u8 = 0x08;
/// Class code: input
pub const CLASS_INPUT: u8 = 0x09;
/// Class code: docking
pub const CLASS_DOCKING: u8 = 0x0A;
/// Class code: processor
pub const CLASS_PROCESSOR: u8 = 0x0B;
/// Class code: serial bus
pub const CLASS_SERIAL_BUS: u8 = 0x0C;
/// Class code: wireless
pub const CLASS_WIRELESS: u8 = 0x0D;
/// Class code: intelligent I/O
pub const CLASS_INTELLIGENT_IO: u8 = 0x0E;
/// Class code: satellite
pub const CLASS_SATELLITE: u8 = 0x0F;
/// Class code: encryption
pub const CLASS_ENCRYPTION: u8 = 0x10;
/// Class code: signal processing
pub const CLASS_SIGNAL_PROCESSING: u8 = 0x11;

/// Serial bus subclass: USB
pub const SUBCLASS_USB: u8 = 0x03;

/// USB programming interface: UHCI
pub const PROG_IF_UHCI: u8 = 0x00;
/// USB programming interface: OHCI
pub const PROG_IF_OHCI: u8 = 0x10;
/// USB programming interface: EHCI
pub const PROG_IF_EHCI: u8 = 0x20;
/// USB programming interface: xHCI
pub const PROG_IF_XHCI: u8 = 0x30;

/// PCI device information
#[derive(Debug, Clone, Copy)]
pub struct PciDevice {
    pub bus: u8,
    pub device: u8,
    pub function: u8,
    pub vendor_id: u16,
    pub device_id: u16,
    pub class_code: u8,
    pub subclass: u8,
    pub prog_if: u8,
    pub revision: u8,
    pub header_type: u8,
    pub interrupt_line: u8,
    pub interrupt_pin: u8,
    pub bars: [u32; 6],
}

/// The name of a class code.
pub open spec fn class_name_of(c: u8) -> Seq<char> {
    if c == 0x00 { "Unclassified"@ } else if c == 0x01 { "Mass Storage"@ } else if c == 0x02 { "Network"@ }
    else if c == 0x03 { "Display"@ } else if c == 0x04 { "Multimedia"@ } else if c == 0x05 { "Memory"@ }
    else if c == 0x06 { "Bridge"@ } else if c == 0x07 { "Communication"@ } else if c == 0x08 { "Peripheral"@ }
    else if c == 0x09 { "Input"@ } else if c == 0x0A { "Docking"@ } else if c == 0x0B { "Processor"@ }
    else if c == 0x0C { "Serial Bus"@ } else if c == 0x0D { "Wireless"@ } else if c == 0x0E { "Intelligent I/O"@ }
    else if c == 0x0F { "Satellite"@ } else if c == 0x10 { "Encryption"@ } else if c == 0x11 { "Signal Processing"@ }
    else { "Unknown"@ }
}

/// The address a BAR gives: memory BARs drop their four flag bits (a 64-bit one takes
/// its high half from the next BAR), I/O BARs their two.
pub open spec fn bar_address_of(bars: Seq<u32>, index: int) -> Option<u64> {
    let bar = bars[index];
    if bar == 0 {
        None
    } else if bar % 2 == 0 {
        if (bar / 2) % 4 == 2 && index < 5 {
            Some((bars[index + 1] * 0x1_0000_0000 + (bar - bar % 16)) as u64)
        } else {
            Some((bar - bar % 16) as u64)
        }
    } else {
        Some((bar - bar % 4) as u64)
    }
}

impl PciDevice {
    /// The Bus:Device.Function address, bus and device in two hex digits
    pub fn bdf(&self) -> (s: String)
        ensures
            s@ == hex2(self.bus) + seq![':'] + hex2(self.device) + seq!['.'] + decimal(self.function as nat),
    {
        let mut s = String::new();
        push_hex2(&mut s, self.bus);
        push_char(&mut s, ':');
        push_hex2(&mut s, self.device);
        push_char(&mut s, '.');
        push_decimal(&mut s, self.function as u64);
        s
    }

    /// Get class name
    pub fn class_name(&self) -> (s: &'static str)
        ensures
            s@ == class_name_of(self.class_code),
    {
        let c = self.class_code;
        if c == CLASS_UNCLASSIFIED { "Unclassified" } else if c == CLASS_MASS_STORAGE { "Mass Storage" }
        else if c == CLASS_NETWORK { "Network" } else if c == CLASS_DISPLAY { "Display" }
        else if c == CLASS_MULTIMEDIA { "Multimedia" } else if c == CLASS_MEMORY { "Memory" }
        else if c == CLASS_BRIDGE { "Bridge" } else if c == CLASS_SIMPLE_COMM { "Communication" }
        else if c == CLASS_BASE_PERIPHERAL { "Peripheral" } else if c == CLASS_INPUT { "Input" }
        else if c == CLASS_DOCKING { "Docking" } else if c == CLASS_PROCESSOR { "Processor" }
        else if c == CLASS_SERIAL_BUS { "Serial Bus" } else if c == CLASS_WIRELESS { "Wireless" }
        else if c == CLASS_INTELLIGENT_IO { "Intelligent I/O" } else if c == CLASS_SATELLITE { "Satellite" }
        else if c == CLASS_ENCRYPTION { "Encryption" } else if c == CLASS_SIGNAL_PROCESSING { "Signal Processing" }
        else { "Unknown" }
    }

    /// Check if this is a USB controller (serial bus class, USB subclass)
    pub fn is_usb_controller(&self) -> (b: bool)
        ensures
            b == (self.class_code == CLASS_SERIAL_BUS && self.subclass == SUBCLASS_USB),
    {
        self.class_code == CLASS_SERIAL_BUS && self.subclass == SUBCLASS_USB
    }

    /// Get USB controller type
    pub fn usb_controller_type(&self) -> (r: Option<&'static str>)
        ensures
            !(self.class_code == CLASS_SERIAL_BUS && self.subclass == SUBCLASS_USB) ==> r is None,
            (self.class_code == CLASS_SERIAL_BUS && self.subclass == SUBCLASS_USB) ==> r is Some && r.unwrap()@ == (
                if self.prog_if == PROG_IF_UHCI { "UHCI (USB 1.x)"@ }
                else if self.prog_if == PROG_IF_OHCI { "OHCI (USB 1.x)"@ }
                else if self.prog_if == PROG_IF_EHCI { "EHCI (USB 2.0)"@ }
                else if self.prog_if == PROG_IF_XHCI { "xHCI (USB 3.x)"@ }
                else { "Unknown USB"@ }),
    {
        if !self.is_usb_controller() {
            return None;
        }
        let p = self.prog_if;
        Some(if p == PROG_IF_UHCI { "UHCI (USB 1.x)" } else if p == PROG_IF_OHCI { "OHCI (USB 1.x)" }
            else if p == PROG_IF_EHCI { "EHCI (USB 2.0)" } else if p == PROG_IF_XHCI { "xHCI (USB 3.x)" }
            else { "Unknown USB" })
    }

    /// Check if this is a multifunction device (header type bit 7)
    pub fn is_multifunction(&self) -> (b: bool)
        ensures
            b == (self.header_type >= 0x80),
    {
        let h = self.header_type;
        proof {
            crate::bits::lemma_byte_bits();
        }
        assert(((h & 0x80) != 0) == (h >= 0x80));
        (h & 0x80) != 0
    }

    /// The address BAR `index` gives; `None` past the sixth BAR or for an empty one
    pub fn bar_address(&self, index: usize) -> (r: Option<u64>)
        ensures
            index >= 6 ==> r is None,
            index < 6 ==> r == bar_address_of(self.bars@, index as int),
    {
        if index >= 6 {
            return None;
        }
        let bar = self.bars[index];
        if bar == 0 {
            return None;
        }
        assert(((bar & 1) == bar % 2) && ((bar & 0x06) == 2 * ((bar / 2) % 4)) && ((bar & 0xFFFFFFF0) == bar - bar % 16) && ((bar & 0xFFFFFFFC) == bar - bar % 4)) by (bit_vector);
        if (bar & 1) == 0 {
            if (bar & 0x06) == 0x04 && index < 5 {
                let high = self.bars[index + 1] as u64;
                let low = (bar & 0xFFFFFFF0) as u64;
                proof {
                    crate::bits::lemma_join_halves();
                }
                assert((high << 32u64) | low == low + high * 0x1_0000_0000);
                Some((high << 32) | low)
            } else {
                Some((bar & 0xFFFFFFF0) as u64)
            }
        } else {
            Some((bar & 0xFFFFFFFC) as u64)
        }
    }
}

fn push_hex2(s: &mut String, b: u8)
    ensures
        final(s)@ == old(s)@ + hex2(b),
{
    let hi = b / 16;
    let lo = b % 16;
    push_char(s, if hi < 10 { (hi + 0x30) as char } else { (hi - 10 + 0x61) as char });
    push_char(s, if lo < 10 { (lo + 0x30) as char } else { (lo - 10 + 0x61) as char });
    assert(final(s)@ =~= old(s)@ + hex2(b));
}

/// The configuration address of a register: enable bit, bus, device, function and
/// the register's dword offset.
pub open spec fn config_address_spec(bus: u8, device: u8, function: u8, offset: u8) -> u32 {
    (0x80000000 + bus * 0x10000 + (device % 32) * 0x800 + (function % 8) * 0x100 + (offset - offset % 4)) as u32
}

/// The value written to the configuration address port to reach a register
pub fn config_address(bus: u8, device: u8, function: u8, offset: u8) -> (a: u32)
    requires
        device < 32,
        function < 8,
    ensures
        a == config_address_spec(bus, device, function, offset),
{
    let b = bus as u32;
    let d = device as u32;
    let f = function as u32;
    let o = offset as u32;
    let a = (b << 16) | (d << 11) | (f << 8) | (o & 0xFC) | 0x80000000;
    assert(a == 0x80000000 + b * 0x10000 + d * 0x800 + f * 0x100 + (o - o % 4)) by (bit_vector)
        requires
            a == (b << 16) | (d << 11) | (f << 8) | (o & 0xFC) | 0x80000000,
            b < 256, d < 32, f < 8, o < 256,
    ;
    a
}

/// The 16-bit field at `offset` within the dword `value` read at `offset & 0xFC`
pub fn config_read16(value: u32, offset: u8) -> (v: u16)
    ensures
        v == (value / (if (offset / 2) % 2 == 1 { 0x10000u32 } else { 1u32 })) % 0x10000,
{
    let shift = ((offset & 2) as u32) * 8;
    assert((offset & 2) == 2 * ((offset / 2) % 2)) by (bit_vector);
    let r = (value >> shift) & 0xFFFF;
    assert((shift == 0 ==> (value >> shift) & 0xFFFF == value % 0x10000) && (shift == 16 ==> (value >> shift) & 0xFFFF == (value / 0x10000) % 0x10000)) by (bit_vector);
    r as u16
}

/// The byte at `offset` within the dword `value` read at `offset & 0xFC`
pub fn config_read8(value: u32, offset: u8) -> (v: u8)
    ensures
        v == (value / (if offset % 4 == 0 { 1u32 } else if offset % 4 == 1 { 0x100u32 } else if offset % 4 == 2 { 0x10000u32 } else { 0x1000000u32 })) % 0x100,
{
    let shift = ((offset & 3) as u32) * 8;
    assert((offset & 3) == offset % 4) by (bit_vector);
    let r = (value >> shift) & 0xFF;
    assert((shift == 0 ==> (value >> shift) & 0xFF == value % 0x100) && (shift == 8 ==> (value >> shift) & 0xFF == (value / 0x100) % 0x100) && (shift == 16 ==> (value >> shift) & 0xFF == (value / 0x10000) % 0x100) && (shift == 24 ==> (value >> shift) & 0xFF == (value / 0x1000000) % 0x100)) by (bit_vector);
    r as u8
}

/// `d` is the record of the function at `bus`:`device`.`function` whose
/// configuration space begins with the dwords `config`.
pub open spec fn probe_of(d: PciDevice, bus: u8, device: u8, function: u8, config: Seq<u32>) -> bool {
    &&& d.bus == bus && d.device == device && d.function == function
    &&& d.vendor_id == config[0] % 0x10000
    &&& d.device_id == config[0] / 0x10000
    &&& d.revision == config[2] % 0x100
    &&& d.prog_if == (config[2] / 0x100) % 0x100
    &&& d.subclass == (config[2] / 0x10000) % 0x100
    &&& d.class_code == config[2] / 0x1000000
    &&& d.header_type == (config[3] / 0x10000) % 0x100
    &&& d.interrupt_line == config[15] % 0x100
    &&& d.interrupt_pin == (config[15] / 0x100) % 0x100
    &&& d.bars@ == config.subrange(4, 10)
}

/// Build the record of the function at `bus`:`device`.`function` from the first 16
/// dwords of its configuration space; `None` when the vendor ID reads as absent
pub fn probe_device(bus: u8, device: u8, function: u8, config: &[u32]) -> (r: Option<PciDevice>)
    requires
        config@.len() >= 16,
    ensures
        config@[0] % 0x10000 == PCI_VENDOR_INVALID ==> r is None,
        config@[0] % 0x10000 != PCI_VENDOR_INVALID ==> r is Some && probe_of(r.unwrap(), bus, device, function, config@),
{
    let vendor_id = config_read16(config[0], 0x00);
    if vendor_id == PCI_VENDOR_INVALID {
        return None;
    }
    let device_id = config_read16(config[0], 0x02);
    let class_code = config_read8(config[2], 0x0B);
    let subclass = config_read8(config[2], 0x0A);
    let prog_if = config_read8(config[2], 0x09);
    let revision = config_read8(config[2], 0x08);
    let header_type = config_read8(config[3], 0x0E);
    let interrupt_line = config_read8(config[15], 0x3C);
    let interrupt_pin = config_read8(config[15], 0x3D);
    let bars = [config[4], config[5], config[6], config[7], config[8], config[9]];
    assert(bars@ =~= config@.subrange(4, 10));
    assert(config@[0] / 0x10000 < 0x10000);
    Some(PciDevice {
        bus,
        device,
        function,
        vendor_id,
        device_id,
        class_code,
        subclass,
        prog_if,
        revision,
        header_type,
        interrupt_line,
        interrupt_pin,
        bars,
    })
}

/// The device class a PCI function registers as.
pub open spec fn device_class_of(d: PciDevice) -> DeviceClass {
    if d.class_code == CLASS_NETWORK {
        DeviceClass::Ethernet
    } else if d.class_code == CLASS_DISPLAY {
        DeviceClass::DisplayController
    } else if d.class_code == CLASS_MASS_STORAGE {
        DeviceClass::BlockDevice
    } else if d.class_code == CLASS_SERIAL_BUS && d.subclass == SUBCLASS_USB {
        DeviceClass::UsbController
    } else if d.class_code == CLASS_INPUT {
        DeviceClass::GenericInput
    } else {
        DeviceClass::Unknown(d.class_code as u16)
    }
}

/// The device class a PCI function registers as
pub fn device_class(d: &PciDevice) -> (c: DeviceClass)
    ensures
        c == device_class_of(*d),
{
    if d.class_code == CLASS_NETWORK {
        DeviceClass::Ethernet
    } else if d.class_code == CLASS_DISPLAY {
        DeviceClass::DisplayController
    } else if d.class_code == CLASS_MASS_STORAGE {
        DeviceClass::BlockDevice
    } else if d.class_code == CLASS_SERIAL_BUS && d.is_usb_controller() {
        DeviceClass::UsbController
    } else if d.class_code == CLASS_INPUT {
        DeviceClass::GenericInput
    } else {
        DeviceClass::Unknown(d.class_code as u16)
    }
}

/// Register a PCI function in the device manager: named `pci-` and its address,
/// with a 4 KiB MMIO region per BAR that gives an address and its IRQ line when it
/// has an interrupt pin
pub fn register_pci_device(dm: &mut DeviceManager, ids: &mut DeviceIdAllocator, dev: &PciDevice) -> (id: DeviceId)
    requires
        old(dm).wf(),
    ensures
        final(dm).wf(),
        id.0 == old(ids).next,
        final(ids).next == old(ids).next.wrapping_add(1),
        final(dm).root == old(dm).root,
        forall|j: u64| has_id(old(dm).devices@, j) ==> #[trigger] has_id(final(dm).devices@, j),
        has_id(final(dm).devices@, id.0),
        pci_entry(final(dm).devices@[pos_of(final(dm).devices@, id.0)], *dev, old(dm).root),
        others_kept(old(dm).devices@, final(dm).devices@, id.0),
{
    let class = device_class(dev);
    let id = alloc_device_id(ids);
    let mut name = String::new();
    push_str(&mut name, "pci-");
    let bdf = dev.bdf();
    push_str(&mut name, bdf.as_str());
    let mut device = Device::new_pci(id, name.as_str(), class, dev.vendor_id, dev.device_id, None);
    let ghost full_name = "pci-"@ + hex2(dev.bus) + seq![':'] + hex2(dev.device) + seq!['.'] + decimal(
        dev.function as nat,
    );
    assert(name@ =~= full_name);
    let mut i: usize = 0;
    while i < 6
        invariant
            device.id == id,
            device.name@ == full_name,
            device.class == class,
            device.bus == BusType::Pci,
            device.parent is None,
            i <= 6,
            device.vendor_id == Some(dev.vendor_id),
            device.device_id == Some(dev.device_id),
            device.resources.mmio@ == pci_mmio(*dev, i as int),
            device.resources.irqs@.len() == 0,
        decreases 6 - i,
    {
        match dev.bar_address(i) {
            Some(addr) => {
                #[verifier::truncate]
                let base = addr as usize;
                device.add_mmio(base, 0x1000);
            },
            None => {},
        }
        i = i + 1;
    }
    assert(device.resources.mmio@ == pci_mmio(*dev, 6));
    if dev.interrupt_pin > 0 {
        assert(!device.resources.irqs@.contains(dev.interrupt_line as u32));
        device.add_irq(dev.interrupt_line as u32);
    }
    assert(device.resources.irqs@ =~= pci_irqs(*dev));
    dm.register_device(device)
}

/// One 4 KiB memory region for each of the first `n` BARs that decode to an address.
pub open spec fn pci_mmio(dev: PciDevice, n: int) -> Seq<MmioRegion>
    decreases n,
{
    if n <= 0 {
        Seq::empty()
    } else {
        let pre = pci_mmio(dev, n - 1);
        match bar_address_of(dev.bars@, n - 1) {
            Some(a) => pre.push(MmioRegion { phys_base: a as usize, virt_base: None, size: 0x1000, cacheable: false }),
            None => pre,
        }
    }
}

/// The interrupt line, when the function uses an interrupt pin.
pub open spec fn pci_irqs(dev: PciDevice) -> Seq<u32> {
    if dev.interrupt_pin > 0 {
        seq![dev.interrupt_line as u32]
    } else {
        Seq::empty()
    }
}

/// `d` is the device record registered for PCI function `dev`: named
/// `pci-BB:DD.F`, of its class, on the PCI bus, under `root`, with its vendor and
/// device ids, a 4 KiB region per decoded BAR and its interrupt line.
pub open spec fn pci_entry(d: Device, dev: PciDevice, root: Option<DeviceId>) -> bool {
    &&& d.name@ == "pci-"@ + hex2(dev.bus) + seq![':'] + hex2(dev.device) + seq!['.'] + decimal(dev.function as nat)
    &&& d.class == device_class_of(dev)
    &&& d.bus == BusType::Pci
    &&& d.parent == root
    &&& d.vendor_id == Some(dev.vendor_id)
    &&& d.device_id == Some(dev.device_id)
    &&& d.resources.mmio@ == pci_mmio(dev, 6)
    &&& d.resources.irqs@ == pci_irqs(dev)
}

/// Where a bus scan stands after probing function `function` of `bus`:`device`,
/// given whether something answered there and, for function 0, whether it is a
/// multifunction device: the next function to probe, or `None` when the scan is
/// over. Function 0 of every slot is probed; functions 1 to 7 only behind a
/// multifunction function 0.
pub open spec fn next_position(bus: u8, device: u8, function: u8, present: bool, multifunction: bool) -> Option<(u8, u8, u8)> {
    if function == 0 && present && multifunction {
        Some((bus, device, 1u8))
    } else if 1 <= function < 7 {
        Some((bus, device, (function + 1) as u8))
    } else if device < 31 {
        Some((bus, (device + 1) as u8, 0u8))
    } else if bus < 255 {
        Some(((bus + 1) as u8, 0u8, 0u8))
    } else {
        None
    }
}

/// A scan of every bus, slot and function, one probe at a time: the caller reads
/// the configuration space of the function `next_probe` names and hands it to
/// `record`, until `next_probe` says the scan is over.
pub struct PciScan {
    pub position: Option<(u8, u8, u8)>,
    pub devices: Vec<PciDevice>,
}

impl PciScan {
    /// A scan about to probe 00:00.0, nothing found yet.
    pub fn new() -> (s: PciScan)
        ensures
            s.position == Some((0u8, 0u8, 0u8)),
            s.devices@.len() == 0,
    {
        PciScan { position: Some((0, 0, 0)), devices: Vec::new() }
    }

    /// The function to probe next; `None` once the scan is over.
    pub fn next_probe(&self) -> (p: Option<(u8, u8, u8)>)
        ensures
            p == self.position,
    {
        self.position
    }

    /// Take in the first 16 dwords of the configuration space of the function
    /// being probed: a present function is added to the devices found, and the
    /// scan moves on (see `next_position`). Nothing changes once the scan is over.
    pub fn record(&mut self, config: &[u32])
        requires
            config@.len() >= 16,
        ensures
            old(self).position is None ==> final(self).position is None && final(self).devices@ == old(self).devices@,
            old(self).position matches Some((b, d, f)) ==> {
                let present = config@[0] % 0x10000 != PCI_VENDOR_INVALID;
                let multi = (config@[3] / 0x10000) % 0x100 >= 0x80;
                &&& final(self).position == next_position(b, d, f, present, multi)
                &&& !present ==> final(self).devices@ == old(self).devices@
                &&& present ==> final(self).devices@.len() == old(self).devices@.len() + 1
                    && final(self).devices@.drop_last() == old(self).devices@
                    && probe_of(final(self).devices@.last(), b, d, f, config@)
            },
    {
        match self.position {
            None => {},
            Some((bus, device, function)) => {
                let found = probe_device(bus, device, function, config);
                let (present, multi) = match found {
                    Some(dev) => {
                        let m = dev.is_multifunction();
                        self.devices.push(dev);
                        (true, m)
                    },
                    None => (false, false),
                };
                proof {
                    if present {
                        assert(self.devices@.drop_last() =~= old(self).devices@);
                    }
                }
                self.position = if function == 0 && present && multi {
                    Some((bus, device, 1))
                } else if 1 <= function && function < 7 {
                    Some((bus, device, function + 1))
                } else if device < 31 {
                    Some((bus, device + 1, 0))
                } else if bus < 255 {
                    Some((bus + 1, 0, 0))
                } else {
                    None
                };
            },
        }
    }
}

/// The discovered PCI functions.
pub struct PciRegistry {
    pub devices: Vec<PciDevice>,
}

impl PciRegistry {
    /// No functions.
    pub fn new() -> (r: PciRegistry)
        ensures
            r.devices@.len() == 0,
    {
        PciRegistry { devices: Vec::new() }
    }
}

/// Take in the functions a bus scan found: register each in the device manager
/// (see `register_pci_device`), under consecutive fresh ids, and keep them as the
/// registry's devices.
pub fn init(pci: &mut PciRegistry, dm: &mut DeviceManager, ids: &mut DeviceIdAllocator, devices: Vec<PciDevice>)
    requires
        old(dm).wf(),
        old(ids).next + devices@.len() <= u64::MAX,
    ensures
        final(dm).wf(),
        final(dm).root == old(dm).root,
        final(pci).devices@ == devices@,
        final(ids).next == old(ids).next + devices@.len(),
        forall|j: u64| has_id(old(dm).devices@, j) ==> #[trigger] has_id(final(dm).devices@, j),
        forall|k: int| 0 <= k < devices@.len() ==> #[trigger] has_id(final(dm).devices@, (old(ids).next + k) as u64),
        forall|k: int|
            0 <= k < devices@.len() ==> pci_entry(
                final(dm).devices@[pos_of(final(dm).devices@, (old(ids).next + k) as u64)],
                #[trigger] devices@[k],
                old(dm).root,
            ),
{
    let mut i: usize = 0;
    while i < devices.len()
        invariant
            i <= devices@.len(),
            dm.wf(),
            dm.root == old(dm).root,
            ids.next == old(ids).next + i,
            old(ids).next + devices@.len() <= u64::MAX,
            forall|j: u64| has_id(old(dm).devices@, j) ==> #[trigger] has_id(dm.devices@, j),
            forall|k: int| 0 <= k < i ==> #[trigger] has_id(dm.devices@, (old(ids).next + k) as u64),
            forall|k: int|
                0 <= k < i ==> pci_entry(
                    dm.devices@[pos_of(dm.devices@, (old(ids).next + k) as u64)],
                    #[trigger] devices@[k],
                    old(dm).root,
                ),
        decreases devices@.len() - i,
    {
        let ghost before = dm.devices@;
        register_pci_device(dm, ids, &devices[i]);
        proof {
            reveal(others_kept);
            assert forall|k: int| 0 <= k < i + 1 implies pci_entry(
                dm.devices@[pos_of(dm.devices@, (old(ids).next + k) as u64)],
                #[trigger] devices@[k],
                old(dm).root,
            ) by {
                if k < i {
                    assert(has_id(before, (old(ids).next + k) as u64));
                }
            }
        }
        assert(forall|k: int| 0 <= k < i ==> #[trigger] has_id(before, (old(ids).next + k) as u64));
        i = i + 1;
    }
    pci.devices = devices;
}

/// Get all discovered PCI devices
pub fn get_devices(pci: &PciRegistry) -> (v: Vec<PciDevice>)
    ensures
        v@ == pci.devices@,
{
    let mut v: Vec<PciDevice> = Vec::new();
    let mut i: usize = 0;
    while i < pci.devices.len()
        invariant
            i <= pci.devices@.len(),
            v@ == pci.devices@.subrange(0, i as int),
        decreases pci.devices@.len() - i,
    {
        v.push(pci.devices[i]);
        i = i + 1;
        assert(v@ =~= pci.devices@.subrange(0, i as int));
    }
    assert(v@ =~= pci.devices@);
    v
}

/// Find the first PCI device with this vendor and device ID
pub fn find_device(pci: &PciRegistry, vendor_id: u16, device_id: u16) -> (r: Option<PciDevice>)
    ensures
        match r {
            Some(d) => exists|i: int| 0 <= i < pci.devices@.len() && pci.devices@[i] == d
                && d.vendor_id == vendor_id && d.device_id == device_id
                && forall|j: int| 0 <= j < i ==> !(#[trigger] pci.devices@[j].vendor_id == vendor_id
                    && pci.devices@[j].device_id == device_id),
            None => forall|j: int| 0 <= j < pci.devices@.len() ==> !(#[trigger] pci.devices@[j].vendor_id == vendor_id
                && pci.devices@[j].device_id == device_id),
        },
{
    let mut i: usize = 0;
    while i < pci.devices.len()
        invariant
            i <= pci.devices@.len(),
            forall|j: int| 0 <= j < i ==> !(#[trigger] pci.devices@[j].vendor_id == vendor_id
                && pci.devices@[j].device_id == device_id),
        decreases pci.devices@.len() - i,
    {
        if pci.devices[i].vendor_id == vendor_id && pci.devices[i].device_id == device_id {
            return Some(pci.devices[i]);
        }
        i = i + 1;
    }
    None
}

/// Find all USB controllers
pub fn find_usb_controllers(pci: &PciRegistry) -> (v: Vec<PciDevice>)
    ensures
        v@ == pci.devices@.filter(|d: PciDevice| d.class_code == CLASS_SERIAL_BUS && d.subclass == SUBCLASS_USB),
{
    let mut v: Vec<PciDevice> = Vec::new();
    let mut i: usize = 0;
    while i < pci.devices.len()
        invariant
            i <= pci.devices@.len(),
            v@ == pci.devices@.subrange(0, i as int).filter(|d: PciDevice| d.class_code == CLASS_SERIAL_BUS && d.subclass == SUBCLASS_USB),
        decreases pci.devices@.len() - i,
    {
        proof {
            let s = pci.devices@.subrange(0, i as int + 1);
            assert(s.drop_last() =~= pci.devices@.subrange(0, i as int));
            reveal(Seq::filter);
        }
        if pci.devices[i].is_usb_controller() {
            v.push(pci.devices[i]);
        }
        i = i + 1;
    }
    assert(pci.devices@.subrange(0, pci.devices@.len() as int) =~= pci.devices@);
    v
}

/// Find all xHCI (USB 3.x) controllers
pub fn find_xhci_controllers(pci: &PciRegistry) -> (v: Vec<PciDevice>)
    ensures
        v@ == pci.devices@.filter(|d: PciDevice| d.class_code == CLASS_SERIAL_BUS && d.subclass == SUBCLASS_USB
            && d.prog_if == PROG_IF_XHCI),
{
    let mut v: Vec<PciDevice> = Vec::new();
    let mut i: usize = 0;
    while i < pci.devices.len()
        invariant
            i <= pci.devices@.len(),
            v@ == pci.devices@.subrange(0, i as int).filter(|d: PciDevice| d.class_code == CLASS_SERIAL_BUS
                && d.subclass == SUBCLASS_USB && d.prog_if == PROG_IF_XHCI),
        decreases pci.devices@.len() - i,
    {
        proof {
            let s = pci.devices@.subrange(0, i as int + 1);
            assert(s.drop_last() =~= pci.devices@.subrange(0, i as int));
            reveal(Seq::filter);
        }
        if pci.devices[i].is_usb_controller() && pci.devices[i].prog_if == PROG_IF_XHCI {
            v.push(pci.devices[i]);
        }
        i = i + 1;
    }
    assert(pci.devices@.subrange(0, pci.devices@.len() as int) =~= pci.devices@);
    v
}

} // verus!
