//! xHCI (USB 3.x) host controllers: what the capability registers say about a
//! controller, what a port status word says about a port, and the devices found.
//!
//! The registers themselves are read by the caller; the functions here take the
//! values read.
use vstd::prelude::*;
use vstd::std_specs::bits::u32_trailing_zeros;
use super::{UsbDevice, UsbSpeed, UsbClass};

verus! {

broadcast use vstd::std_specs::bits::axiom_u32_trailing_zeros;

/// Capability register: capability length
pub const CAPLENGTH: usize = 0x00;
/// Capability register: interface version
pub const HCIVERSION: usize = 0x02;
/// Capability register: structural parameters 1
pub const HCSPARAMS1: usize = 0x04;
/// Capability register: doorbell offset
pub const DBOFF: usize = 0x14;
/// Capability register: runtime register space offset
pub const RTSOFF: usize = 0x18;
/// Operational register: page size
pub const PAGESIZE: usize = 0x08;

/// Port speed value: full speed
pub const PORT_SPEED_FULL: u32 = 1;
/// Port speed value: low speed
pub const PORT_SPEED_LOW: u32 = 2;
/// Port speed value: high speed
pub const PORT_SPEED_HIGH: u32 = 3;
/// Port speed value: super speed
pub const PORT_SPEED_SUPER: u32 = 4;
/// Port speed value: super speed plus
pub const PORT_SPEED_SUPER_PLUS: u32 = 5;

/// xHCI Controller: where its register blocks lie and what it supports
#[derive(Debug, Clone, Copy, PartialEq, Eq, Structural)]
pub struct XhciController {
    /// Base MMIO address
    pub base: usize,
    /// Capability register base
    pub cap_base: usize,
    /// Operational register base
    pub op_base: usize,
    /// Runtime register base
    pub rt_base: usize,
    /// Doorbell register base
    pub db_base: usize,
    /// Port register base
    pub port_base: usize,
    /// Number of ports
    pub num_ports: u8,
    /// Maximum device slots
    pub max_slots: u8,
    /// Maximum interrupters
    pub max_intrs: u16,
    /// Page size (in bytes)
    pub page_size: u32,
    /// Is controller running
    pub running: bool,
}

/// Transfer Request Block
#[derive(Debug, Clone, Copy, PartialEq, Eq, Structural)]
pub struct TRB {
    pub param1: u64,
    pub param2: u32,
    pub control: u32,
}

impl TRB {
    /// An all-zero TRB
    pub fn new() -> (t: TRB)
        ensures
            t == (TRB { param1: 0, param2: 0, control: 0 }),
    {
        TRB { param1: 0, param2: 0, control: 0 }
    }
}

/// Whether a port status word says a device is connected (bit 0).
pub open spec fn status_connected(portsc: u32) -> bool {
    portsc % 2 == 1
}

/// The speed a port status word reports (bits 10 to 13); an unknown value reads as full speed.
pub open spec fn status_speed(portsc: u32) -> UsbSpeed {
    let s = (portsc / 0x400) % 16;
    if s == PORT_SPEED_LOW {
        UsbSpeed::Low
    } else if s == PORT_SPEED_FULL {
        UsbSpeed::Full
    } else if s == PORT_SPEED_HIGH {
        UsbSpeed::High
    } else if s == PORT_SPEED_SUPER {
        UsbSpeed::Super
    } else if s == PORT_SPEED_SUPER_PLUS {
        UsbSpeed::SuperPlus
    } else {
        UsbSpeed::Full
    }
}

/// The devices found on ports `0..n` with status words `statuses`, in port order.
pub open spec fn found_devices(statuses: Seq<u32>, n: nat) -> Seq<UsbDevice>
    decreases n,
{
    if n == 0 {
        Seq::empty()
    } else {
        let p = (n - 1) as nat;
        found_devices(statuses, p) + if status_connected(statuses[p as int]) {
            seq![UsbDevice {
                address: (p + 1) as u8,
                speed: status_speed(statuses[p as int]),
                vendor_id: 0,
                product_id: 0,
                class: UsbClass::PerInterface,
                subclass: 0,
                protocol: 0,
                manufacturer: None,
                product: None,
                serial: None,
                port: p as u8,
                parent: 0,
            }]
        } else {
            Seq::empty()
        }
    }
}

impl XhciController {
    /// Describe a controller at `base` from the values of its registers: capability
    /// length, interface version, HCSPARAMS1, doorbell and runtime offsets, and the
    /// operational PAGESIZE register. Versions before 1.0 are refused.
    pub fn new(base: usize, cap_length: u8, version: u16, hcsparams1: u32, dboff: u32, rtsoff: u32, page_size_reg: u32)
        -> (r: Result<XhciController, &'static str>)
        requires
            base + 0x1_0000_0000 + 0x500 <= usize::MAX,
            page_size_reg % 0x10000 != 0,
        ensures
            version < 0x0100 ==> r is Err,
            version >= 0x0100 ==> r is Ok && ({
                let c = r.unwrap();
                &&& c.base == base
                &&& c.cap_base == base
                &&& c.max_slots == hcsparams1 % 0x100
                &&& c.max_intrs == (hcsparams1 / 0x100) % 0x800
                &&& c.num_ports == hcsparams1 / 0x1000000
                &&& c.op_base == base + cap_length
                &&& c.db_base == base + (dboff - dboff % 4)
                &&& c.rt_base == base + (rtsoff - rtsoff % 32)
                &&& c.port_base == base + cap_length + 0x400
                &&& c.page_size == 1u32 << (12 + u32_trailing_zeros((page_size_reg % 0x10000) as u32))
                &&& !c.running
            }),
    {
        if version < 0x0100 {
            return Err("xHCI version too old");
        }
        let max_slots = (hcsparams1 & 0xFF) as u8;
        let max_intrs = ((hcsparams1 >> 8) & 0x7FF) as u16;
        let num_ports = ((hcsparams1 >> 24) & 0xFF) as u8;
        assert(hcsparams1 & 0xFF == hcsparams1 % 0x100 && (hcsparams1 >> 8) & 0x7FF == (hcsparams1 / 0x100) % 0x800
            && (hcsparams1 >> 24) & 0xFF == hcsparams1 / 0x1000000) by (bit_vector);
        let op_base = base + cap_length as usize;
        assert((dboff & !0x3u32 == dboff - dboff % 4) && (rtsoff & !0x1Fu32 == rtsoff - rtsoff % 32)) by (bit_vector);
        let db_base = base + (dboff & !0x3) as usize;
        let rt_base = base + (rtsoff & !0x1F) as usize;
        let port_base = op_base + 0x400;
        let low = page_size_reg & 0xFFFF;
        assert(page_size_reg & 0xFFFF == page_size_reg % 0x10000) by (bit_vector);
        let tz = low.trailing_zeros();
        assert(tz < 16) by (bit_vector)
            requires
                (low >> tz) & 1 == 1,
                low < 0x10000,
                tz < 32,
        ;
        let page_size = 1u32 << (12 + tz);
        Ok(XhciController {
            base,
            cap_base: base,
            op_base,
            rt_base,
            db_base,
            port_base,
            num_ports,
            max_slots,
            max_intrs,
            page_size,
            running: false,
        })
    }

    /// Check if a device is connected on `port`, whose status word is `portsc`; a port
    /// past the last reads as unconnected
    pub fn is_port_connected(&self, port: u8, portsc: u32) -> (b: bool)
        ensures
            b == (port < self.num_ports && status_connected(portsc)),
    {
        if port >= self.num_ports {
            return false;
        }
        assert(((portsc & 1) != 0) == (portsc % 2 == 1)) by (bit_vector);
        (portsc & 1) != 0
    }

    /// The speed of the device on `port`, whose status word is `portsc`; `None` when
    /// nothing is connected there
    pub fn port_speed(&self, port: u8, portsc: u32) -> (r: Option<UsbSpeed>)
        ensures
            r == (if port < self.num_ports && status_connected(portsc) { Some(status_speed(portsc)) } else { None }),
    {
        if !self.is_port_connected(port, portsc) {
            return None;
        }
        let speed = (portsc >> 10) & 0xF;
        assert((portsc >> 10) & 0xF == (portsc / 0x400) % 16) by (bit_vector);
        Some(if speed == PORT_SPEED_LOW {
            UsbSpeed::Low
        } else if speed == PORT_SPEED_FULL {
            UsbSpeed::Full
        } else if speed == PORT_SPEED_HIGH {
            UsbSpeed::High
        } else if speed == PORT_SPEED_SUPER {
            UsbSpeed::Super
        } else if speed == PORT_SPEED_SUPER_PLUS {
            UsbSpeed::SuperPlus
        } else {
            UsbSpeed::Full
        })
    }

    /// The devices connected to the ports, given each port's status word: one per
    /// connected port, addressed port number + 1, in port order
    pub fn enumerate_devices(&self, statuses: &[u32]) -> (v: Vec<UsbDevice>)
        requires
            statuses@.len() == self.num_ports,
        ensures
            v@ == found_devices(statuses@, self.num_ports as nat),
    {
        let mut devices: Vec<UsbDevice> = Vec::new();
        let mut port: u8 = 0;
        while port < self.num_ports
            invariant
                port <= self.num_ports,
                statuses@.len() == self.num_ports,
                devices@ == found_devices(statuses@, port as nat),
            decreases self.num_ports - port,
        {
            let portsc = statuses[port as usize];
            if self.is_port_connected(port, portsc) {
                match self.port_speed(port, portsc) {
                    Some(speed) => {
                        let mut device = UsbDevice::new(port + 1, speed);
                        device.port = port;
                        devices.push(device);
                    },
                    None => {},
                }
            }
            port = port + 1;
        }
        devices
    }

    /// Get number of ports
    pub fn num_ports(&self) -> (n: u8)
        ensures
            n == self.num_ports,
    {
        self.num_ports
    }

    /// Get max slots
    pub fn max_slots(&self) -> (n: u8)
        ensures
            n == self.max_slots,
    {
        self.max_slots
    }

    /// Check if controller is running
    pub fn is_running(&self) -> (b: bool)
        ensures
            b == self.running,
    {
        self.running
    }
}

/// The initialized xHCI controllers.
pub struct XhciRegistry {
    pub controllers: Vec<XhciController>,
}

/// The ports of the controllers, summed.
pub open spec fn port_total(cs: Seq<XhciController>) -> int
    decreases cs.len(),
{
    if cs.len() == 0 { 0 } else { port_total(cs.drop_last()) + cs.last().num_ports }
}

/// Check if xHCI is available
pub fn is_available(xhci: &XhciRegistry) -> (b: bool)
    ensures
        b == (xhci.controllers@.len() > 0),
{
    xhci.controllers.len() != 0
}

/// Get total number of USB ports
pub fn total_ports(xhci: &XhciRegistry) -> (n: u8)
    requires
        port_total(xhci.controllers@) <= u8::MAX,
    ensures
        n == port_total(xhci.controllers@),
{
    let mut n: u8 = 0;
    let mut i: usize = 0;
    while i < xhci.controllers.len()
        invariant
            i <= xhci.controllers@.len(),
            n == port_total(xhci.controllers@.subrange(0, i as int)),
            port_total(xhci.controllers@) <= u8::MAX,
        decreases xhci.controllers@.len() - i,
    {
        proof {
            let s = xhci.controllers@.subrange(0, i as int + 1);
            assert(s.drop_last() =~= xhci.controllers@.subrange(0, i as int));
            lemma_port_total_prefix(xhci.controllers@, i as int + 1);
        }
        n = n + xhci.controllers[i].num_ports();
        i = i + 1;
    }
    assert(xhci.controllers@.subrange(0, i as int) =~= xhci.controllers@);
    n
}

proof fn lemma_port_total_prefix(cs: Seq<XhciController>, k: int)
    requires
        0 <= k <= cs.len(),
    ensures
        port_total(cs.subrange(0, k)) <= port_total(cs),
    decreases cs.len(),
{
    if k < cs.len() {
        assert(cs.drop_last().subrange(0, k) =~= cs.subrange(0, k));
        lemma_port_total_prefix(cs.drop_last(), k);
    } else {
        assert(cs.subrange(0, k) =~= cs);
    }
}

} // verus!
