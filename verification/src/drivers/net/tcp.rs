//! TCP: the segment header, connection state and control blocks, ephemeral port
//! allocation, segment processing and segment building.
use vstd::prelude::*;
use std::collections::{BTreeMap, VecDeque};
use super::{Ipv4Address, ip_value, be16, be32, be16_bytes, be32_bytes, read_be16, read_be32, push_be16, push_be32,
    push_bytes, set_be16};
use super::ipv4::{sum_words, fold_complement, checksum_of};
use super::udp::{pseudo_sum, pseudo_header_sum, sum_fits};

verus! {

broadcast use vstd::std_specs::btree::group_btree_axioms;

/// TCP header minimum size
pub const TCP_HEADER_MIN: usize = 20;

/// TCP flag: FIN
pub const FIN: u8 = 0x01;
/// TCP flag: SYN
pub const SYN: u8 = 0x02;
/// TCP flag: RST
pub const RST: u8 = 0x04;
/// TCP flag: PSH
pub const PSH: u8 = 0x08;
/// TCP flag: ACK
pub const ACK: u8 = 0x10;
/// TCP flag: URG
pub const URG: u8 = 0x20;

/// First ephemeral port
pub const EPHEMERAL_FIRST: u16 = 49152;

/// TCP connection state
#[derive(Debug, Clone, Copy, PartialEq, Eq, Structural)]
pub enum TcpState {
    Closed,
    Listen,
    SynSent,
    SynReceived,
    Established,
    FinWait1,
    FinWait2,
    CloseWait,
    Closing,
    LastAck,
    TimeWait,
}

/// TCP header
#[derive(Debug, Clone, Copy)]
pub struct TcpHeader {
    pub src_port: [u8; 2],
    pub dst_port: [u8; 2],
    pub seq_num: [u8; 4],
    pub ack_num: [u8; 4],
    pub data_offset_flags: [u8; 2],
    pub window: [u8; 2],
    pub checksum: [u8; 2],
    pub urgent_ptr: [u8; 2],
}

impl TcpHeader {
    /// The header at the front of a segment of at least 20 bytes.
    pub fn parse(data: &[u8]) -> (h: TcpHeader)
        requires
            data@.len() >= TCP_HEADER_MIN,
        ensures
            h.src_port@ == data@.subrange(0, 2),
            h.dst_port@ == data@.subrange(2, 4),
            h.seq_num@ == data@.subrange(4, 8),
            h.ack_num@ == data@.subrange(8, 12),
            h.data_offset_flags@ == data@.subrange(12, 14),
            h.window@ == data@.subrange(14, 16),
            h.checksum@ == data@.subrange(16, 18),
            h.urgent_ptr@ == data@.subrange(18, 20),
    {
        let h = TcpHeader {
            src_port: [data[0], data[1]],
            dst_port: [data[2], data[3]],
            seq_num: [data[4], data[5], data[6], data[7]],
            ack_num: [data[8], data[9], data[10], data[11]],
            data_offset_flags: [data[12], data[13]],
            window: [data[14], data[15]],
            checksum: [data[16], data[17]],
            urgent_ptr: [data[18], data[19]],
        };
        assert(h.src_port@ =~= data@.subrange(0, 2));
        assert(h.dst_port@ =~= data@.subrange(2, 4));
        assert(h.seq_num@ =~= data@.subrange(4, 8));
        assert(h.ack_num@ =~= data@.subrange(8, 12));
        assert(h.data_offset_flags@ =~= data@.subrange(12, 14));
        assert(h.window@ =~= data@.subrange(14, 16));
        assert(h.checksum@ =~= data@.subrange(16, 18));
        assert(h.urgent_ptr@ =~= data@.subrange(18, 20));
        h
    }

    pub open spec fn spec_seq(&self) -> u32 {
        be32(self.seq_num@[0], self.seq_num@[1], self.seq_num@[2], self.seq_num@[3])
    }

    pub open spec fn spec_ack(&self) -> u32 {
        be32(self.ack_num@[0], self.ack_num@[1], self.ack_num@[2], self.ack_num@[3])
    }

    /// Source port
    pub fn source_port(&self) -> (p: u16)
        ensures
            p == be16(self.src_port@[0], self.src_port@[1]),
    {
        read_be16(self.src_port[0], self.src_port[1])
    }

    /// Destination port
    pub fn destination_port(&self) -> (p: u16)
        ensures
            p == be16(self.dst_port@[0], self.dst_port@[1]),
    {
        read_be16(self.dst_port[0], self.dst_port[1])
    }

    /// Sequence number
    pub fn sequence_number(&self) -> (n: u32)
        ensures
            n == self.spec_seq(),
    {
        read_be32(self.seq_num[0], self.seq_num[1], self.seq_num[2], self.seq_num[3])
    }

    /// Acknowledgment number
    pub fn acknowledgment_number(&self) -> (n: u32)
        ensures
            n == self.spec_ack(),
    {
        read_be32(self.ack_num[0], self.ack_num[1], self.ack_num[2], self.ack_num[3])
    }

    /// Header length in bytes (the high four bits count 32-bit words)
    pub fn data_offset(&self) -> (n: usize)
        ensures
            n == (self.data_offset_flags@[0] / 16) * 4,
    {
        let x = self.data_offset_flags[0];
        assert(x >> 4 == x / 16) by (bit_vector);
        ((x >> 4) as usize) * 4
    }

    /// The flag bits
    pub fn flags(&self) -> (f: u8)
        ensures
            f == self.data_offset_flags@[1],
    {
        self.data_offset_flags[1]
    }

    /// Window size
    pub fn window_size(&self) -> (w: u16)
        ensures
            w == be16(self.window@[0], self.window@[1]),
    {
        read_be16(self.window[0], self.window[1])
    }
}

/// TCP connection key
#[derive(Clone, Copy)]
pub struct TcpConnectionKey {
    pub local_addr: Ipv4Address,
    pub local_port: u16,
    pub remote_addr: Ipv4Address,
    pub remote_port: u16,
}

/// The key as one number, ordered as the fields are: local address, local port,
/// remote address, remote port.
pub open spec fn key_code(k: TcpConnectionKey) -> u128 {
    (ip_value(k.local_addr) * 0x1_0000_0000_0000_0000 + k.local_port * 0x1_0000_0000_0000
        + ip_value(k.remote_addr) * 0x1_0000 + k.remote_port) as u128
}

fn key_number(k: &TcpConnectionKey) -> (c: u128)
    ensures
        c == key_code(*k),
{
    let la = k.local_addr.to_u32() as u128;
    let ra = k.remote_addr.to_u32() as u128;
    la * 0x1_0000_0000_0000_0000 + k.local_port as u128 * 0x1_0000_0000_0000 + ra * 0x1_0000 + k.remote_port as u128
}

/// TCP Control Block
pub struct TcpControlBlock {
    /// Connection state
    pub state: TcpState,
    /// Local address
    pub local_addr: Ipv4Address,
    pub local_port: u16,
    /// Remote address
    pub remote_addr: Ipv4Address,
    pub remote_port: u16,
    /// Send sequence number
    pub snd_nxt: u32,
    /// Send unacknowledged
    pub snd_una: u32,
    /// Send window
    pub snd_wnd: u16,
    /// Initial send sequence number
    pub iss: u32,
    /// Receive next
    pub rcv_nxt: u32,
    /// Receive window
    pub rcv_wnd: u16,
    /// Initial receive sequence number
    pub irs: u32,
    /// Send buffer
    pub send_buf: VecDeque<u8>,
    /// Receive buffer
    pub recv_buf: VecDeque<u8>,
}

impl TcpControlBlock {
    /// A closed connection with unspecified endpoints, full windows and empty buffers
    pub fn new() -> (b: TcpControlBlock)
        ensures
            b.state == TcpState::Closed,
            b.local_addr.0@ == seq![0u8, 0, 0, 0],
            b.local_port == 0,
            b.remote_addr.0@ == seq![0u8, 0, 0, 0],
            b.remote_port == 0,
            b.snd_nxt == 0,
            b.snd_una == 0,
            b.snd_wnd == 65535,
            b.iss == 0,
            b.rcv_nxt == 0,
            b.rcv_wnd == 65535,
            b.irs == 0,
            b.send_buf@.len() == 0,
            b.recv_buf@.len() == 0,
    {
        TcpControlBlock {
            state: TcpState::Closed,
            local_addr: Ipv4Address::unspecified(),
            local_port: 0,
            remote_addr: Ipv4Address::unspecified(),
            remote_port: 0,
            snd_nxt: 0,
            snd_una: 0,
            snd_wnd: 65535,
            iss: 0,
            rcv_nxt: 0,
            rcv_wnd: 65535,
            irs: 0,
            send_buf: VecDeque::new(),
            recv_buf: VecDeque::new(),
        }
    }
}

/// Active TCP connections, by key, and the next ephemeral port.
pub struct TcpTable {
    pub connections: BTreeMap<u128, TcpControlBlock>,
    pub next_port: u16,
}

impl View for TcpTable {
    type V = Map<u128, TcpControlBlock>;

    open spec fn view(&self) -> Map<u128, TcpControlBlock> {
        self.connections@
    }
}

impl TcpTable {
    /// The next ephemeral port lies in the dynamic range.
    pub open spec fn wf(&self) -> bool {
        self.next_port >= EPHEMERAL_FIRST
    }

    /// No connections; ephemeral ports from 49152.
    pub fn new() -> (t: TcpTable)
        ensures
            t.wf(),
            t@ == Map::<u128, TcpControlBlock>::empty(),
            t.next_port == EPHEMERAL_FIRST,
    {
        TcpTable { connections: BTreeMap::new(), next_port: EPHEMERAL_FIRST }
    }
}

/// Allocate an ephemeral port: the ports go round 49152 to 65535
pub fn alloc_port(tcp: &mut TcpTable) -> (p: u16)
    requires
        old(tcp).wf(),
    ensures
        final(tcp).wf(),
        p == old(tcp).next_port,
        EPHEMERAL_FIRST <= p,
        final(tcp).next_port == (if old(tcp).next_port >= 65535 { EPHEMERAL_FIRST } else { (old(tcp).next_port + 1) as u16 }),
        final(tcp)@ == old(tcp)@,
{
    let p = tcp.next_port;
    tcp.next_port = if tcp.next_port >= 65535 { EPHEMERAL_FIRST } else { tcp.next_port + 1 };
    p
}

/// What a received segment amounted to.
pub enum TcpEvent {
    /// It went to the existing connection with this key
    Segment(TcpConnectionKey),
    /// A connection request (SYN without ACK) from this address and port, to this port
    Syn(Ipv4Address, u16, u16),
    /// Too short, or for no connection and not a connection request
    Ignored,
}

/// What a segment does to a control block's numbers and state (buffers aside).
pub open spec fn segment_effect(tcb: TcpControlBlock, seq: u32, ack: u32, flags: u8, payload_len: nat) -> (TcpState, u32, u32, u32) {
    match tcb.state {
        TcpState::SynSent => if flags & SYN != 0 && flags & ACK != 0 {
            (TcpState::Established, seq.wrapping_add(1), seq, ack)
        } else {
            (tcb.state, tcb.rcv_nxt, tcb.irs, tcb.snd_una)
        },
        TcpState::Established => {
            let r1 = if payload_len > 0 { tcb.rcv_nxt.wrapping_add(payload_len as u32) } else { tcb.rcv_nxt };
            if flags & FIN != 0 {
                (TcpState::CloseWait, r1.wrapping_add(1), tcb.irs, tcb.snd_una)
            } else {
                (tcb.state, r1, tcb.irs, tcb.snd_una)
            }
        },
        _ => (tcb.state, tcb.rcv_nxt, tcb.irs, tcb.snd_una),
    }
}

/// Process a TCP segment for an existing connection: a SYN-ACK completes an open
/// handshake; on an established connection data is received and a FIN half-closes.
pub fn process_segment(tcb: &mut TcpControlBlock, header: &TcpHeader, flags: u8, payload: &[u8])
    ensures
        ({
            let (st, rn, irs, una) = segment_effect(*old(tcb), header.spec_seq(), header.spec_ack(), flags, payload@.len());
            &&& final(tcb).state == st
            &&& final(tcb).rcv_nxt == rn
            &&& final(tcb).irs == irs
            &&& final(tcb).snd_una == una
        }),
        final(tcb).recv_buf@ == (if old(tcb).state == TcpState::Established { old(tcb).recv_buf@ + payload@ } else { old(tcb).recv_buf@ }),
        final(tcb).send_buf@ == old(tcb).send_buf@,
        final(tcb).snd_nxt == old(tcb).snd_nxt,
        final(tcb).local_port == old(tcb).local_port,
        final(tcb).remote_port == old(tcb).remote_port,
{
    let state = tcb.state;
    if state == TcpState::SynSent {
        if (flags & SYN) != 0 && (flags & ACK) != 0 {
            let seq = header.sequence_number();
            tcb.rcv_nxt = seq.wrapping_add(1);
            tcb.irs = seq;
            tcb.snd_una = header.acknowledgment_number();
            tcb.state = TcpState::Established;
        }
    } else if state == TcpState::Established {
        if payload.len() != 0 {
            let mut i: usize = 0;
            let ghost start = tcb.recv_buf@;
            while i < payload.len()
                invariant
                    i <= payload@.len(),
                    tcb.recv_buf@ == start + payload@.subrange(0, i as int),
                    tcb.state == old(tcb).state,
                    tcb.rcv_nxt == old(tcb).rcv_nxt,
                    tcb.irs == old(tcb).irs,
                    tcb.snd_una == old(tcb).snd_una,
                    tcb.snd_nxt == old(tcb).snd_nxt,
                    tcb.local_port == old(tcb).local_port,
                    tcb.remote_port == old(tcb).remote_port,
                    tcb.send_buf@ == old(tcb).send_buf@,
                    start == old(tcb).recv_buf@,
                decreases payload@.len() - i,
            {
                tcb.recv_buf.push_back(payload[i]);
                i = i + 1;
                assert(tcb.recv_buf@ =~= start + payload@.subrange(0, i as int));
            }
            assert(payload@.subrange(0, payload@.len() as int) =~= payload@);
            #[verifier::truncate]
            let len = payload.len() as u32;
            tcb.rcv_nxt = tcb.rcv_nxt.wrapping_add(len);
        } else {
            assert(tcb.recv_buf@ + payload@ =~= tcb.recv_buf@);
        }
        if (flags & FIN) != 0 {
            tcb.rcv_nxt = tcb.rcv_nxt.wrapping_add(1);
            tcb.state = TcpState::CloseWait;
        }
    }
}

/// The connection a segment `data` from `src` to `dst` belongs to: the local end
/// is the destination.
pub open spec fn segment_key(src: Ipv4Address, dst: Ipv4Address, data: Seq<u8>) -> TcpConnectionKey {
    TcpConnectionKey {
        local_addr: dst,
        local_port: be16(data[2], data[3]),
        remote_addr: src,
        remote_port: be16(data[0], data[1]),
    }
}

/// What processing segment `data` from `src` to `dst` does to the connections
/// `before`, leaving `after`: a segment shorter than its header is ignored; one
/// for an existing connection goes to it (the others stay as they were); one that
/// asks for a connection (SYN without ACK) is reported; any other is ignored.
pub open spec fn tcp_outcome(
    before: Map<u128, TcpControlBlock>,
    after: Map<u128, TcpControlBlock>,
    src: Ipv4Address,
    dst: Ipv4Address,
    data: Seq<u8>,
    e: TcpEvent,
) -> bool {
    if data.len() < TCP_HEADER_MIN || data.len() < (data[12] / 16) * 4 {
        e is Ignored && after == before
    } else if before.contains_key(key_code(segment_key(src, dst, data))) {
        &&& e == TcpEvent::Segment(segment_key(src, dst, data))
        &&& after.dom() == before.dom()
        &&& forall|k: u128|
            k != key_code(segment_key(src, dst, data)) && before.contains_key(k) ==> #[trigger] after[k] == before[k]
    } else if data[13] & SYN != 0 && data[13] & ACK == 0 {
        e == TcpEvent::Syn(src, be16(data[0], data[1]), be16(data[2], data[3])) && after == before
    } else {
        e is Ignored && after == before
    }
}

/// Process a TCP segment from `src_ip` to `dst_ip`
pub fn process_packet(tcp: &mut TcpTable, src_ip: Ipv4Address, dst_ip: Ipv4Address, data: &[u8]) -> (e: TcpEvent)
    requires
        old(tcp).wf(),
    ensures
        final(tcp).wf(),
        final(tcp).next_port == old(tcp).next_port,
        data@.len() < TCP_HEADER_MIN ==> e is Ignored && final(tcp)@ == old(tcp)@,
        data@.len() >= TCP_HEADER_MIN && data@.len() < (data@[12] / 16) * 4 ==> e is Ignored && final(tcp)@ == old(tcp)@,
        tcp_outcome(old(tcp)@, final(tcp)@, src_ip, dst_ip, data@, e),
{
    if data.len() < TCP_HEADER_MIN {
        return TcpEvent::Ignored;
    }
    let header = TcpHeader::parse(data);
    let data_offset = header.data_offset();
    if data.len() < data_offset {
        return TcpEvent::Ignored;
    }
    let payload = vstd::slice::slice_subrange(data, data_offset, data.len());
    let flags = header.flags();
    let key = TcpConnectionKey {
        local_addr: dst_ip,
        local_port: header.destination_port(),
        remote_addr: src_ip,
        remote_port: header.source_port(),
    };
    let code = key_number(&key);
    if tcp.connections.contains_key(&code) {
        let ghost old_map = tcp.connections@;
        let mut tcb = tcp.connections.remove(&code).unwrap();
        process_segment(&mut tcb, &header, flags, payload);
        tcp.connections.insert(code, tcb);
        assert(tcp.connections@.dom() =~= old_map.dom());
        TcpEvent::Segment(key)
    } else if (flags & SYN) != 0 && (flags & ACK) == 0 {
        TcpEvent::Syn(src_ip, header.source_port(), header.destination_port())
    } else {
        TcpEvent::Ignored
    }
}

/// The TCP checksum of a segment: over the pseudo-header and the segment.
pub open spec fn tcp_checksum_spec(src: Ipv4Address, dst: Ipv4Address, packet: Seq<u8>) -> u16 {
    checksum_of(pseudo_sum(src, dst, 6, (packet.len() as u32) as nat), packet)
}

/// Calculate TCP checksum with pseudo-header
pub fn tcp_checksum(src_ip: Ipv4Address, dst_ip: Ipv4Address, packet: &[u8]) -> (c: u16)
    requires
        sum_fits(src_ip, dst_ip, 6, packet@),
    ensures
        c == tcp_checksum_spec(src_ip, dst_ip, packet@),
{
    let init = pseudo_header_sum(src_ip, dst_ip, 6, packet.len() as u32);
    let sum = sum_words(init, packet);
    fold_complement(sum)
}

/// A segment before its checksum is filled in.
pub open spec fn tcp_template(src_port: u16, dst_port: u16, seq: u32, ack: u32, flags: u8, window: u16, payload: Seq<u8>) -> Seq<u8> {
    be16_bytes(src_port) + be16_bytes(dst_port) + be32_bytes(seq) + be32_bytes(ack) + seq![0x50u8, flags]
        + be16_bytes(window) + seq![0u8, 0u8, 0u8, 0u8] + payload
}

/// Create a TCP segment: a 20-byte header and the payload, checksum filled in
pub fn create_packet(
    src_ip: Ipv4Address,
    dst_ip: Ipv4Address,
    src_port: u16,
    dst_port: u16,
    seq: u32,
    ack: u32,
    flags: u8,
    window: u16,
    payload: &[u8],
) -> (p: Vec<u8>)
    requires
        TCP_HEADER_MIN + payload@.len() <= usize::MAX,
        sum_fits(src_ip, dst_ip, 6, tcp_template(src_port, dst_port, seq, ack, flags, window, payload@)),
    ensures
        ({
            let t = tcp_template(src_port, dst_port, seq, ack, flags, window, payload@);
            let c = tcp_checksum_spec(src_ip, dst_ip, t);
            p@ == t.update(16, (c / 256) as u8).update(17, (c % 256) as u8)
        }),
{
    let mut packet: Vec<u8> = Vec::new();
    push_be16(&mut packet, src_port);
    push_be16(&mut packet, dst_port);
    push_be32(&mut packet, seq);
    push_be32(&mut packet, ack);
    packet.push(0x50);
    packet.push(flags);
    push_be16(&mut packet, window);
    push_be16(&mut packet, 0);
    push_be16(&mut packet, 0);
    push_bytes(&mut packet, payload);
    assert(packet@ =~= tcp_template(src_port, dst_port, seq, ack, flags, window, payload@));
    let cksum = tcp_checksum(src_ip, dst_ip, packet.as_slice());
    set_be16(&mut packet, 16, cksum);
    packet
}

} // verus!
