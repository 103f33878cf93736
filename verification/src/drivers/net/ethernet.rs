//! Ethernet frames: the header, parsing, building, and dispatch by EtherType.
use vstd::prelude::*;
use super::{MacAddress, be16, be16_bytes, read_be16, push_be16, push_bytes};
use super::arp::{self, ArpCache};
use super::ipv4::{self, Ipv4Event};
use super::tcp::TcpTable;

verus! {

/// Ethernet header size
pub const ETH_HEADER_SIZE: usize = 14;

/// EtherType: IPv4
pub const ETHERTYPE_IPV4: u16 = 0x0800;
/// EtherType: ARP
pub const ETHERTYPE_ARP: u16 = 0x0806;
/// EtherType: IPv6
pub const ETHERTYPE_IPV6: u16 = 0x86DD;

/// Ethernet frame header
#[derive(Clone, Copy)]
pub struct EthernetHeader {
    pub dst_mac: [u8; 6],
    pub src_mac: [u8; 6],
    pub ether_type: [u8; 2],
}

impl EthernetHeader {
    /// Get destination MAC
    pub fn destination(&self) -> (m: MacAddress)
        ensures
            m.0@ == self.dst_mac@,
    {
        MacAddress(self.dst_mac)
    }

    /// Get source MAC
    pub fn source(&self) -> (m: MacAddress)
        ensures
            m.0@ == self.src_mac@,
    {
        MacAddress(self.src_mac)
    }

    /// Get EtherType
    pub fn ether_type(&self) -> (t: u16)
        ensures
            t == be16(self.ether_type@[0], self.ether_type@[1]),
    {
        read_be16(self.ether_type[0], self.ether_type[1])
    }
}

/// Parse an Ethernet frame into its header and payload
pub fn parse_frame(data: &[u8]) -> (r: Option<(EthernetHeader, &[u8])>)
    ensures
        data@.len() < ETH_HEADER_SIZE ==> r is None,
        data@.len() >= ETH_HEADER_SIZE ==> r is Some && ({
            let (h, payload) = r.unwrap();
            &&& h.dst_mac@ == data@.subrange(0, 6)
            &&& h.src_mac@ == data@.subrange(6, 12)
            &&& h.ether_type@ == data@.subrange(12, 14)
            &&& payload@ == data@.subrange(14, data@.len() as int)
        }),
{
    if data.len() < ETH_HEADER_SIZE {
        return None;
    }
    let h = EthernetHeader {
        dst_mac: [data[0], data[1], data[2], data[3], data[4], data[5]],
        src_mac: [data[6], data[7], data[8], data[9], data[10], data[11]],
        ether_type: [data[12], data[13]],
    };
    assert(h.dst_mac@ =~= data@.subrange(0, 6));
    assert(h.src_mac@ =~= data@.subrange(6, 12));
    assert(h.ether_type@ =~= data@.subrange(12, 14));
    let payload = vstd::slice::slice_subrange(data, ETH_HEADER_SIZE, data.len());
    Some((h, payload))
}

/// What a received frame was.
pub enum FrameEvent {
    /// An ARP packet (the cache has been updated from it)
    Arp,
    /// An IPv4 packet, and what it was
    Ipv4(Ipv4Event),
    /// Too short, IPv6, or of another EtherType
    Ignored,
}

/// Process a received Ethernet frame at `timestamp`: ARP goes to the cache, IPv4 up the stack
pub fn process_frame(arp_cache: &mut ArpCache, tcp: &mut TcpTable, data: &[u8], timestamp: u64) -> (e: FrameEvent)
    requires
        old(arp_cache).wf(),
        old(tcp).wf(),
    ensures
        final(arp_cache).wf(),
        final(tcp).wf(),
        data@.len() < ETH_HEADER_SIZE ==> e is Ignored,
        data@.len() >= ETH_HEADER_SIZE ==> ({
            let t = be16(data@[12], data@[13]);
            &&& (t == ETHERTYPE_ARP <==> e is Arp)
            &&& (t == ETHERTYPE_IPV4 <==> e is Ipv4)
        }),
        !(e is Arp) ==> final(arp_cache).slots@ == old(arp_cache).slots@,
        !(e is Ipv4) ==> final(tcp)@ == old(tcp)@,
{
    match parse_frame(data) {
        Some((header, payload)) => {
            let t = header.ether_type();
            if t == ETHERTYPE_ARP {
                arp::process_packet(arp_cache, payload, timestamp);
                FrameEvent::Arp
            } else if t == ETHERTYPE_IPV4 {
                FrameEvent::Ipv4(ipv4::process_packet(tcp, payload))
            } else {
                FrameEvent::Ignored
            }
        },
        None => FrameEvent::Ignored,
    }
}

/// Create an Ethernet frame: destination, source, EtherType, then the payload
pub fn create_frame(dst: MacAddress, src: MacAddress, ether_type: u16, payload: &[u8]) -> (f: Vec<u8>)
    ensures
        f@ == dst.0@ + src.0@ + be16_bytes(ether_type) + payload@,
{
    let mut frame: Vec<u8> = Vec::new();
    push_bytes(&mut frame, &dst.0);
    push_bytes(&mut frame, &src.0);
    push_be16(&mut frame, ether_type);
    push_bytes(&mut frame, payload);
    frame
}

} // verus!
