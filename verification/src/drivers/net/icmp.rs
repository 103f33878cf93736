//! ICMP: echo request and reply (ping) messages, and what a received message says.
use vstd::prelude::*;
use super::{Ipv4Address, be16, be16_bytes, read_be16, push_be16, push_bytes, set_be16};
use super::ipv4::{checksum, checksum_of, word_sum};

verus! {

/// ICMP type: echo reply
pub const ECHO_REPLY: u8 = 0;
/// ICMP type: destination unreachable
pub const DEST_UNREACHABLE: u8 = 3;
/// ICMP type: echo request
pub const ECHO_REQUEST: u8 = 8;
/// ICMP type: time exceeded
pub const TIME_EXCEEDED: u8 = 11;

/// ICMP header
#[derive(Debug, Clone, Copy)]
pub struct IcmpHeader {
    pub icmp_type: u8,
    pub code: u8,
    pub checksum: [u8; 2],
    pub rest: [u8; 4],
}

/// ICMP Echo header (for ping)
#[derive(Debug, Clone, Copy)]
pub struct IcmpEcho {
    pub icmp_type: u8,
    pub code: u8,
    pub checksum: [u8; 2],
    pub identifier: [u8; 2],
    pub sequence: [u8; 2],
}

/// What a received ICMP message says.
pub enum IcmpEvent {
    /// An echo request from this address
    EchoRequest(Ipv4Address),
    /// An echo reply from this address, with its sequence number
    EchoReply(Ipv4Address, u16),
    /// A destination-unreachable report from this address
    DestUnreachable(Ipv4Address),
    /// A time-exceeded report from this address
    TimeExceeded(Ipv4Address),
    /// Too short, or of another type
    Ignored,
}

/// What an ICMP message `data` from `src` is found to be: by its type, when it is
/// at least 8 bytes long.
pub open spec fn icmp_outcome(src: Ipv4Address, data: Seq<u8>, e: IcmpEvent) -> bool {
    &&& data.len() < 8 ==> e is Ignored
    &&& data.len() >= 8 ==> match e {
        IcmpEvent::EchoRequest(a) => data[0] == ECHO_REQUEST && a == src,
        IcmpEvent::EchoReply(a, seq) => data[0] == ECHO_REPLY && a == src && seq == be16(data[6], data[7]),
        IcmpEvent::DestUnreachable(a) => data[0] == DEST_UNREACHABLE && a == src,
        IcmpEvent::TimeExceeded(a) => data[0] == TIME_EXCEEDED && a == src,
        IcmpEvent::Ignored => data[0] != ECHO_REQUEST && data[0] != ECHO_REPLY && data[0] != DEST_UNREACHABLE
            && data[0] != TIME_EXCEEDED,
    }
}

/// Process an ICMP message from `src`
pub fn process_packet(src: Ipv4Address, dst: Ipv4Address, data: &[u8]) -> (e: IcmpEvent)
    ensures
        icmp_outcome(src, data@, e),
{
    if data.len() < 8 {
        return IcmpEvent::Ignored;
    }
    let icmp_type = data[0];
    if icmp_type == ECHO_REQUEST {
        IcmpEvent::EchoRequest(src)
    } else if icmp_type == ECHO_REPLY {
        IcmpEvent::EchoReply(src, read_be16(data[6], data[7]))
    } else if icmp_type == DEST_UNREACHABLE {
        IcmpEvent::DestUnreachable(src)
    } else if icmp_type == TIME_EXCEEDED {
        IcmpEvent::TimeExceeded(src)
    } else {
        IcmpEvent::Ignored
    }
}

/// An echo message before its checksum is filled in.
pub open spec fn echo_template(kind: u8, id: u16, seq: u16, data: Seq<u8>) -> Seq<u8> {
    seq![kind, 0u8, 0u8, 0u8] + be16_bytes(id) + be16_bytes(seq) + data
}

/// An echo message with its checksum filled in.
pub open spec fn echo_message(kind: u8, id: u16, seq: u16, data: Seq<u8>) -> Seq<u8> {
    let t = echo_template(kind, id, seq, data);
    let c = checksum_of(0, t);
    t.update(2, (c / 256) as u8).update(3, (c % 256) as u8)
}

fn create_echo(kind: u8, id: u16, seq: u16, data: &[u8]) -> (p: Vec<u8>)
    requires
        8 + data@.len() <= usize::MAX,
        word_sum(echo_template(kind, id, seq, data@)) <= u32::MAX,
    ensures
        p@ == echo_message(kind, id, seq, data@),
{
    let mut packet: Vec<u8> = Vec::new();
    packet.push(kind);
    packet.push(0);
    push_be16(&mut packet, 0);
    push_be16(&mut packet, id);
    push_be16(&mut packet, seq);
    push_bytes(&mut packet, data);
    assert(packet@ =~= echo_template(kind, id, seq, data@));
    let cksum = checksum(packet.as_slice());
    set_be16(&mut packet, 2, cksum);
    packet
}

/// Create ICMP Echo Request (ping)
pub fn create_echo_request(id: u16, seq: u16, data: &[u8]) -> (p: Vec<u8>)
    requires
        8 + data@.len() <= usize::MAX,
        word_sum(echo_template(ECHO_REQUEST, id, seq, data@)) <= u32::MAX,
    ensures
        p@ == echo_message(ECHO_REQUEST, id, seq, data@),
{
    create_echo(ECHO_REQUEST, id, seq, data)
}

/// Create ICMP Echo Reply
pub fn create_echo_reply(id: u16, seq: u16, data: &[u8]) -> (p: Vec<u8>)
    requires
        8 + data@.len() <= usize::MAX,
        word_sum(echo_template(ECHO_REPLY, id, seq, data@)) <= u32::MAX,
    ensures
        p@ == echo_message(ECHO_REPLY, id, seq, data@),
{
    create_echo(ECHO_REPLY, id, seq, data)
}

} // verus!
