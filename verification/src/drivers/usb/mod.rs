//! USB: device classes and speeds, the device record, and the registry of
//! enumerated devices.
pub mod descriptor;
pub mod device;
pub mod hid;
pub mod msc;
pub mod xhci;

use vstd::prelude::*;

verus! {

/// USB device speed
#[derive(Debug, Clone, Copy, PartialEq, Eq, Structural)]
pub enum UsbSpeed {
    /// 1.5 Mbps (USB 1.0)
    Low,
    /// 12 Mbps (USB 1.1)
    Full,
    /// 480 Mbps (USB 2.0)
    High,
    /// 5 Gbps (USB 3.0)
    Super,
    /// 10 Gbps (USB 3.1)
    SuperPlus,
}

impl UsbSpeed {
    /// A readable name with the signalling rate
    pub fn name(&self) -> (s: &'static str)
        ensures
            s@ == (match *self {
                UsbSpeed::Low => "Low (1.5 Mbps)"@,
                UsbSpeed::Full => "Full (12 Mbps)"@,
                UsbSpeed::High => "High (480 Mbps)"@,
                UsbSpeed::Super => "Super (5 Gbps)"@,
                UsbSpeed::SuperPlus => "Super+ (10 Gbps)"@,
            }),
    {
        match self {
            UsbSpeed::Low => "Low (1.5 Mbps)",
            UsbSpeed::Full => "Full (12 Mbps)",
            UsbSpeed::High => "High (480 Mbps)",
            UsbSpeed::Super => "Super (5 Gbps)",
            UsbSpeed::SuperPlus => "Super+ (10 Gbps)",
        }
    }
}

/// USB device class codes
#[derive(Debug, Clone, Copy, PartialEq, Eq, Structural)]
pub enum UsbClass {
    PerInterface,
    Audio,
    Communications,
    Hid,
    Physical,
    Image,
    Printer,
    MassStorage,
    Hub,
    CdcData,
    SmartCard,
    ContentSecurity,
    Video,
    PersonalHealthcare,
    AudioVideo,
    Billboard,
    UsbTypeCBridge,
    Diagnostic,
    Wireless,
    Miscellaneous,
    ApplicationSpecific,
    VendorSpecific,
}

/// The class a class code stands for; a code without a class of its own is vendor specific.
pub open spec fn class_of_code(val: u8) -> UsbClass {
    match val {
        0x00 => UsbClass::PerInterface,
        0x01 => UsbClass::Audio,
        0x02 => UsbClass::Communications,
        0x03 => UsbClass::Hid,
        0x05 => UsbClass::Physical,
        0x06 => UsbClass::Image,
        0x07 => UsbClass::Printer,
        0x08 => UsbClass::MassStorage,
        0x09 => UsbClass::Hub,
        0x0A => UsbClass::CdcData,
        0x0B => UsbClass::SmartCard,
        0x0D => UsbClass::ContentSecurity,
        0x0E => UsbClass::Video,
        0x0F => UsbClass::PersonalHealthcare,
        0x10 => UsbClass::AudioVideo,
        0x11 => UsbClass::Billboard,
        0x12 => UsbClass::UsbTypeCBridge,
        0xDC => UsbClass::Diagnostic,
        0xE0 => UsbClass::Wireless,
        0xEF => UsbClass::Miscellaneous,
        0xFE => UsbClass::ApplicationSpecific,
        _ => UsbClass::VendorSpecific,
    }
}

impl UsbClass {
    /// The class code
    pub open spec fn spec_code(self) -> u8 {
        match self {
            UsbClass::PerInterface => 0x00,
            UsbClass::Audio => 0x01,
            UsbClass::Communications => 0x02,
            UsbClass::Hid => 0x03,
            UsbClass::Physical => 0x05,
            UsbClass::Image => 0x06,
            UsbClass::Printer => 0x07,
            UsbClass::MassStorage => 0x08,
            UsbClass::Hub => 0x09,
            UsbClass::CdcData => 0x0A,
            UsbClass::SmartCard => 0x0B,
            UsbClass::ContentSecurity => 0x0D,
            UsbClass::Video => 0x0E,
            UsbClass::PersonalHealthcare => 0x0F,
            UsbClass::AudioVideo => 0x10,
            UsbClass::Billboard => 0x11,
            UsbClass::UsbTypeCBridge => 0x12,
            UsbClass::Diagnostic => 0xDC,
            UsbClass::Wireless => 0xE0,
            UsbClass::Miscellaneous => 0xEF,
            UsbClass::ApplicationSpecific => 0xFE,
            UsbClass::VendorSpecific => 0xFF,
        }
    }

    /// The class code
    pub fn code(self) -> (c: u8)
        ensures
            c == self.spec_code(),
    {
        match self {
            UsbClass::PerInterface => 0x00,
            UsbClass::Audio => 0x01,
            UsbClass::Communications => 0x02,
            UsbClass::Hid => 0x03,
            UsbClass::Physical => 0x05,
            UsbClass::Image => 0x06,
            UsbClass::Printer => 0x07,
            UsbClass::MassStorage => 0x08,
            UsbClass::Hub => 0x09,
            UsbClass::CdcData => 0x0A,
            UsbClass::SmartCard => 0x0B,
            UsbClass::ContentSecurity => 0x0D,
            UsbClass::Video => 0x0E,
            UsbClass::PersonalHealthcare => 0x0F,
            UsbClass::AudioVideo => 0x10,
            UsbClass::Billboard => 0x11,
            UsbClass::UsbTypeCBridge => 0x12,
            UsbClass::Diagnostic => 0xDC,
            UsbClass::Wireless => 0xE0,
            UsbClass::Miscellaneous => 0xEF,
            UsbClass::ApplicationSpecific => 0xFE,
            UsbClass::VendorSpecific => 0xFF,
        }
    }

    /// The class a class code stands for; an unknown code is vendor specific
    pub fn from_u8(val: u8) -> (c: UsbClass)
        ensures
            c == class_of_code(val),
    {
        match val {
            0x00 => UsbClass::PerInterface,
            0x01 => UsbClass::Audio,
            0x02 => UsbClass::Communications,
            0x03 => UsbClass::Hid,
            0x05 => UsbClass::Physical,
            0x06 => UsbClass::Image,
            0x07 => UsbClass::Printer,
            0x08 => UsbClass::MassStorage,
            0x09 => UsbClass::Hub,
            0x0A => UsbClass::CdcData,
            0x0B => UsbClass::SmartCard,
            0x0D => UsbClass::ContentSecurity,
            0x0E => UsbClass::Video,
            0x0F => UsbClass::PersonalHealthcare,
            0x10 => UsbClass::AudioVideo,
            0x11 => UsbClass::Billboard,
            0x12 => UsbClass::UsbTypeCBridge,
            0xDC => UsbClass::Diagnostic,
            0xE0 => UsbClass::Wireless,
            0xEF => UsbClass::Miscellaneous,
            0xFE => UsbClass::ApplicationSpecific,
            _ => UsbClass::VendorSpecific,
        }
    }

    /// A readable name
    pub fn name(&self) -> (s: &'static str)
        ensures
            s@ == (match *self {
                UsbClass::PerInterface => "Per Interface"@,
                UsbClass::Audio => "Audio"@,
                UsbClass::Communications => "Communications"@,
                UsbClass::Hid => "HID"@,
                UsbClass::Physical => "Physical"@,
                UsbClass::Image => "Image"@,
                UsbClass::Printer => "Printer"@,
                UsbClass::MassStorage => "Mass Storage"@,
                UsbClass::Hub => "Hub"@,
                UsbClass::CdcData => "CDC Data"@,
                UsbClass::SmartCard => "Smart Card"@,
                UsbClass::ContentSecurity => "Content Security"@,
                UsbClass::Video => "Video"@,
                UsbClass::PersonalHealthcare => "Personal Healthcare"@,
                UsbClass::AudioVideo => "Audio/Video"@,
                UsbClass::Billboard => "Billboard"@,
                UsbClass::UsbTypeCBridge => "USB Type-C Bridge"@,
                UsbClass::Diagnostic => "Diagnostic"@,
                UsbClass::Wireless => "Wireless"@,
                UsbClass::Miscellaneous => "Miscellaneous"@,
                UsbClass::ApplicationSpecific => "Application Specific"@,
                UsbClass::VendorSpecific => "Vendor Specific"@,
            }),
    {
        match self {
            UsbClass::PerInterface => "Per Interface",
            UsbClass::Audio => "Audio",
            UsbClass::Communications => "Communications",
            UsbClass::Hid => "HID",
            UsbClass::Physical => "Physical",
            UsbClass::Image => "Image",
            UsbClass::Printer => "Printer",
            UsbClass::MassStorage => "Mass Storage",
            UsbClass::Hub => "Hub",
            UsbClass::CdcData => "CDC Data",
            UsbClass::SmartCard => "Smart Card",
            UsbClass::ContentSecurity => "Content Security",
            UsbClass::Video => "Video",
            UsbClass::PersonalHealthcare => "Personal Healthcare",
            UsbClass::AudioVideo => "Audio/Video",
            UsbClass::Billboard => "Billboard",
            UsbClass::UsbTypeCBridge => "USB Type-C Bridge",
            UsbClass::Diagnostic => "Diagnostic",
            UsbClass::Wireless => "Wireless",
            UsbClass::Miscellaneous => "Miscellaneous",
            UsbClass::ApplicationSpecific => "Application Specific",
            UsbClass::VendorSpecific => "Vendor Specific",
        }
    }
}

/// A known class code reads back as itself.
pub proof fn law_class_code_roundtrip(c: UsbClass)
    ensures
        class_of_code(c.spec_code()) == c,
{
}

/// USB device information
#[derive(Debug, Clone)]
pub struct UsbDevice {
    /// Device address (1-127)
    pub address: u8,
    /// Speed
    pub speed: UsbSpeed,
    /// Vendor ID
    pub vendor_id: u16,
    /// Product ID
    pub product_id: u16,
    /// Device class
    pub class: UsbClass,
    /// Subclass
    pub subclass: u8,
    /// Protocol
    pub protocol: u8,
    /// Manufacturer string
    pub manufacturer: Option<String>,
    /// Product string
    pub product: Option<String>,
    /// Serial number string
    pub serial: Option<String>,
    /// Port on parent hub (0 for root)
    pub port: u8,
    /// Parent hub address (0 for root)
    pub parent: u8,
}

fn copy_opt_string(s: &Option<String>) -> (r: Option<String>)
    ensures
        r == *s,
{
    match s {
        Some(t) => Some(t.clone()),
        None => None,
    }
}

impl UsbDevice {
    /// A device at `address` running at `speed`, with every other field zero or empty
    pub fn new(address: u8, speed: UsbSpeed) -> (d: UsbDevice)
        ensures
            d == (UsbDevice {
                address,
                speed,
                vendor_id: 0,
                product_id: 0,
                class: UsbClass::PerInterface,
                subclass: 0,
                protocol: 0,
                manufacturer: None,
                product: None,
                serial: None,
                port: 0,
                parent: 0,
            }),
    {
        UsbDevice {
            address,
            speed,
            vendor_id: 0,
            product_id: 0,
            class: UsbClass::PerInterface,
            subclass: 0,
            protocol: 0,
            manufacturer: None,
            product: None,
            serial: None,
            port: 0,
            parent: 0,
        }
    }

    /// An equal copy of the record
    pub fn duplicate(&self) -> (d: UsbDevice)
        ensures
            d == *self,
    {
        UsbDevice {
            address: self.address,
            speed: self.speed,
            vendor_id: self.vendor_id,
            product_id: self.product_id,
            class: self.class,
            subclass: self.subclass,
            protocol: self.protocol,
            manufacturer: copy_opt_string(&self.manufacturer),
            product: copy_opt_string(&self.product),
            serial: copy_opt_string(&self.serial),
            port: self.port,
            parent: self.parent,
        }
    }
}

/// The enumerated USB devices, in the order they were registered.
pub struct UsbRegistry {
    pub devices: Vec<UsbDevice>,
}

impl UsbRegistry {
    /// No devices.
    pub fn new() -> (r: UsbRegistry)
        ensures
            r.devices@.len() == 0,
    {
        UsbRegistry { devices: Vec::new() }
    }
}

/// Get all USB devices
pub fn get_devices(usb: &UsbRegistry) -> (v: Vec<UsbDevice>)
    ensures
        v@ == usb.devices@,
{
    let mut v: Vec<UsbDevice> = Vec::new();
    let mut i: usize = 0;
    while i < usb.devices.len()
        invariant
            i <= usb.devices@.len(),
            v@ == usb.devices@.subrange(0, i as int),
        decreases usb.devices@.len() - i,
    {
        v.push(usb.devices[i].duplicate());
        i = i + 1;
        assert(v@ =~= usb.devices@.subrange(0, i as int));
    }
    assert(v@ =~= usb.devices@);
    v
}

/// Register a USB device
pub fn register_device(usb: &mut UsbRegistry, device: UsbDevice)
    ensures
        final(usb).devices@ == old(usb).devices@.push(device),
{
    usb.devices.push(device);
}

/// Find the first USB device with this vendor and product ID
pub fn find_device(usb: &UsbRegistry, vendor_id: u16, product_id: u16) -> (r: Option<UsbDevice>)
    ensures
        match r {
            Some(d) => exists|i: int| 0 <= i < usb.devices@.len() && usb.devices@[i] == d
                && d.vendor_id == vendor_id && d.product_id == product_id
                && forall|j: int| 0 <= j < i ==> !(#[trigger] usb.devices@[j].vendor_id == vendor_id
                    && usb.devices@[j].product_id == product_id),
            None => forall|j: int| 0 <= j < usb.devices@.len() ==> !(#[trigger] usb.devices@[j].vendor_id == vendor_id
                && usb.devices@[j].product_id == product_id),
        },
{
    let mut i: usize = 0;
    while i < usb.devices.len()
        invariant
            i <= usb.devices@.len(),
            forall|j: int| 0 <= j < i ==> !(#[trigger] usb.devices@[j].vendor_id == vendor_id
                && usb.devices@[j].product_id == product_id),
        decreases usb.devices@.len() - i,
    {
        if usb.devices[i].vendor_id == vendor_id && usb.devices[i].product_id == product_id {
            return Some(usb.devices[i].duplicate());
        }
        i = i + 1;
    }
    None
}

/// The devices of a class, in registration order.
pub open spec fn of_class(devices: Seq<UsbDevice>, class: UsbClass) -> Seq<UsbDevice> {
    devices.filter(|d: UsbDevice| d.class == class)
}

/// Find USB devices by class
pub fn find_by_class(usb: &UsbRegistry, class: UsbClass) -> (v: Vec<UsbDevice>)
    ensures
        v@ == of_class(usb.devices@, class),
{
    let mut v: Vec<UsbDevice> = Vec::new();
    let mut i: usize = 0;
    while i < usb.devices.len()
        invariant
            i <= usb.devices@.len(),
            v@ == of_class(usb.devices@.subrange(0, i as int), class),
        decreases usb.devices@.len() - i,
    {
        proof {
            let s = usb.devices@.subrange(0, i as int + 1);
            assert(s.drop_last() =~= usb.devices@.subrange(0, i as int));
            reveal(Seq::filter);
        }
        if usb.devices[i].class == class {
            v.push(usb.devices[i].duplicate());
        }
        i = i + 1;
    }
    assert(usb.devices@.subrange(0, usb.devices@.len() as int) =~= usb.devices@);
    v
}

} // verus!
