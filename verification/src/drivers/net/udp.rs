//! UDP: the datagram header, datagram building with the pseudo-header checksum,
//! and what a received datagram says.
use vstd::prelude::*;
use super::{Ipv4Address, be16, be16_bytes, read_be16, push_be16, push_bytes, set_be16};
use super::ipv4::{sum_words, fold_complement, fold16, word_sum, checksum_of, lemma_word_sum_bound};

verus! {

/// UDP header size
pub const UDP_HEADER_SIZE: usize = 8;

/// UDP header
#[derive(Debug, Clone, Copy)]
pub struct UdpHeader {
    pub src_port: [u8; 2],
    pub dst_port: [u8; 2],
    pub length: [u8; 2],
    pub checksum: [u8; 2],
}

impl UdpHeader {
    /// Source port
    pub fn source_port(&self) -> (p: u16)
        ensures
            p == be16(self.src_port@[0], self.src_port@[1]),
    {
        read_be16(self.src_port[0], self.src_port[1])
    }

    /// Destination port
    pub fn destination_port(&self) -> (p: u16)
        ensures
            p == be16(self.dst_port@[0], self.dst_port@[1]),
    {
        read_be16(self.dst_port[0], self.dst_port[1])
    }

    /// Datagram length
    pub fn length(&self) -> (n: u16)
        ensures
            n == be16(self.length@[0], self.length@[1]),
    {
        read_be16(self.length[0], self.length[1])
    }
}

/// What a received datagram says: who sent it, from which port, to which port.
pub enum UdpEvent {
    Datagram(Ipv4Address, u16, u16),
    /// Shorter than a header
    Ignored,
}

/// What a datagram `data` from `src` is found to be: its ports, when it holds a
/// header.
pub open spec fn udp_outcome(src: Ipv4Address, data: Seq<u8>, e: UdpEvent) -> bool {
    &&& data.len() < UDP_HEADER_SIZE ==> e is Ignored
    &&& data.len() >= UDP_HEADER_SIZE ==> match e {
        UdpEvent::Datagram(a, sp, dp) => a == src && sp == be16(data[0], data[1]) && dp == be16(data[2], data[3]),
        UdpEvent::Ignored => false,
    }
}

/// Process a UDP datagram from `src_ip`
pub fn process_packet(src_ip: Ipv4Address, dst_ip: Ipv4Address, data: &[u8]) -> (e: UdpEvent)
    ensures
        udp_outcome(src_ip, data@, e),
{
    if data.len() < UDP_HEADER_SIZE {
        return UdpEvent::Ignored;
    }
    let header = UdpHeader {
        src_port: [data[0], data[1]],
        dst_port: [data[2], data[3]],
        length: [data[4], data[5]],
        checksum: [data[6], data[7]],
    };
    UdpEvent::Datagram(src_ip, header.source_port(), header.destination_port())
}

/// The pseudo-header's contribution to a checksum: both addresses as words, the
/// protocol and the length.
pub open spec fn pseudo_sum(src: Ipv4Address, dst: Ipv4Address, protocol: nat, len: nat) -> nat {
    (be16(src.0@[0], src.0@[1]) + be16(src.0@[2], src.0@[3]) + be16(dst.0@[0], dst.0@[1]) + be16(dst.0@[2], dst.0@[3])
        + protocol + len) as nat
}

/// Whether a checksum over the pseudo-header (protocol `protocol`) and `packet`
/// can be summed in 32 bits, the packet's length counted as a 32-bit number.
pub open spec fn sum_fits(src: Ipv4Address, dst: Ipv4Address, protocol: nat, packet: Seq<u8>) -> bool {
    pseudo_sum(src, dst, protocol, (packet.len() as u32) as nat) + word_sum(packet) <= u32::MAX
}

/// A packet of at most 0xFFFF bytes can always be summed in 32 bits.
pub proof fn lemma_short_packet_fits(src: Ipv4Address, dst: Ipv4Address, protocol: nat, packet: Seq<u8>)
    requires
        protocol <= 0xFF,
        packet.len() <= 0xFFFF,
    ensures
        sum_fits(src, dst, protocol, packet),
{
    lemma_word_sum_bound(packet);
    assert((packet.len() / 2 + 1) * 0xFFFF <= 0x8000 * 0xFFFF) by (nonlinear_arith)
        requires packet.len() <= 0xFFFF;
    assert(packet.len() as u32 == packet.len());
}

pub(crate) fn pseudo_header_sum(src: Ipv4Address, dst: Ipv4Address, protocol: u32, len: u32) -> (s: u32)
    requires
        pseudo_sum(src, dst, protocol as nat, len as nat) <= u32::MAX,
    ensures
        s == pseudo_sum(src, dst, protocol as nat, len as nat),
{
    read_be16(src.0[0], src.0[1]) as u32 + read_be16(src.0[2], src.0[3]) as u32
        + read_be16(dst.0[0], dst.0[1]) as u32 + read_be16(dst.0[2], dst.0[3]) as u32 + protocol + len
}

/// The UDP checksum of a datagram: over the pseudo-header and the datagram; a result
/// of zero is sent as 0xFFFF.
pub open spec fn udp_checksum_spec(src: Ipv4Address, dst: Ipv4Address, packet: Seq<u8>) -> u16 {
    let c = checksum_of(pseudo_sum(src, dst, 17, (packet.len() as u32) as nat), packet);
    if c == 0 { 0xFFFF } else { c }
}

/// Calculate UDP checksum with pseudo-header
pub fn udp_checksum(src_ip: Ipv4Address, dst_ip: Ipv4Address, packet: &[u8]) -> (c: u16)
    requires
        sum_fits(src_ip, dst_ip, 17, packet@),
    ensures
        c == udp_checksum_spec(src_ip, dst_ip, packet@),
{
    let init = pseudo_header_sum(src_ip, dst_ip, 17, packet.len() as u32);
    let sum = sum_words(init, packet);
    let c = fold_complement(sum);
    if c == 0 { 0xFFFF } else { c }
}

/// A datagram before its checksum is filled in.
pub open spec fn udp_template(src_port: u16, dst_port: u16, length: u16, payload: Seq<u8>) -> Seq<u8> {
    be16_bytes(src_port) + be16_bytes(dst_port) + be16_bytes(length) + seq![0u8, 0u8] + payload
}

/// Create a UDP datagram: header (ports, length) and payload, checksum filled in
pub fn create_packet(src_ip: Ipv4Address, dst_ip: Ipv4Address, src_port: u16, dst_port: u16, payload: &[u8]) -> (p: Vec<u8>)
    requires
        UDP_HEADER_SIZE + payload@.len() <= usize::MAX,
        sum_fits(src_ip, dst_ip, 17, udp_template(src_port, dst_port,
            ((UDP_HEADER_SIZE + payload@.len()) % 0x10000) as u16, payload@)),
    ensures
        ({
            let t = udp_template(src_port, dst_port, ((UDP_HEADER_SIZE + payload@.len()) % 0x10000) as u16, payload@);
            let c = udp_checksum_spec(src_ip, dst_ip, t);
            p@ == t.update(6, (c / 256) as u8).update(7, (c % 256) as u8)
        }),
{
    let total = UDP_HEADER_SIZE + payload.len();
    let length = (total % 0x10000) as u16;
    let mut packet: Vec<u8> = Vec::new();
    push_be16(&mut packet, src_port);
    push_be16(&mut packet, dst_port);
    push_be16(&mut packet, length);
    push_be16(&mut packet, 0);
    push_bytes(&mut packet, payload);
    assert(packet@ =~= udp_template(src_port, dst_port, length, payload@));
    let cksum = udp_checksum(src_ip, dst_ip, packet.as_slice());
    set_be16(&mut packet, 6, cksum);
    packet
}

} // verus!
