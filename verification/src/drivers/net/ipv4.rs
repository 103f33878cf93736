//! IPv4: the header, the Internet checksum, packet building and demultiplexing.
use vstd::prelude::*;
use super::{Ipv4Address, be16, be16_bytes, read_be16, push_be16, push_bytes, set_be16};
use super::icmp::{self, IcmpEvent};
use super::udp::{self, UdpEvent};
use super::tcp::{self, TcpEvent, TcpTable};

verus! {

/// IPv4 header minimum size
pub const IPV4_HEADER_MIN: usize = 20;

/// IP protocol number: ICMP
pub const PROTOCOL_ICMP: u8 = 1;
/// IP protocol number: TCP
pub const PROTOCOL_TCP: u8 = 6;
/// IP protocol number: UDP
pub const PROTOCOL_UDP: u8 = 17;

// ---------------------------------------------------------------------------
// The Internet checksum
// ---------------------------------------------------------------------------

/// Sum of the big-endian 16-bit words formed by the first `n` bytes (`n` even).
pub open spec fn pairs_sum(d: Seq<u8>, n: nat) -> nat
    decreases n,
{
    if n < 2 {
        0
    } else {
        (pairs_sum(d, (n - 2) as nat) + d[n - 2] * 256 + d[n - 1]) as nat
    }
}

/// Sum of the big-endian 16-bit words of `d`, an odd last byte padded with zero.
pub open spec fn word_sum(d: Seq<u8>) -> nat {
    if d.len() % 2 == 0 {
        pairs_sum(d, d.len())
    } else {
        (pairs_sum(d, (d.len() - 1) as nat) + d[d.len() - 1] * 256) as nat
    }
}

/// `s` with carries folded back in until it fits in 16 bits.
pub open spec fn fold16(s: nat) -> nat
    decreases s,
{
    if s < 0x10000 {
        s
    } else {
        proof {
            assert(s % 0x10000 + s / 0x10000 < s) by (nonlinear_arith)
                requires s >= 0x10000;
        }
        fold16(s % 0x10000 + s / 0x10000)
    }
}

/// The ones' complement checksum of `d`, with `init` already summed in (a pseudo-header).
pub open spec fn checksum_of(init: nat, d: Seq<u8>) -> u16 {
    (0xFFFF - fold16(init + word_sum(d))) as u16
}

proof fn lemma_pairs_sum_bound(d: Seq<u8>, n: nat)
    requires
        n <= d.len(),
        n % 2 == 0,
    ensures
        pairs_sum(d, n) <= (n / 2) * 0xFFFF,
    decreases n,
{
    if n >= 2 {
        lemma_pairs_sum_bound(d, (n - 2) as nat);
    }
}

pub(crate) proof fn lemma_word_sum_bound(d: Seq<u8>)
    ensures
        word_sum(d) <= (d.len() / 2 + 1) * 0xFFFF,
{
    if d.len() % 2 == 0 {
        lemma_pairs_sum_bound(d, d.len());
    } else {
        lemma_pairs_sum_bound(d, (d.len() - 1) as nat);
    }
}

/// The word sum of at most 64 KiB fits in 32 bits.
pub proof fn lemma_short_word_sum(d: Seq<u8>)
    requires
        d.len() <= 0x1_0000,
    ensures
        word_sum(d) <= u32::MAX,
{
    lemma_word_sum_bound(d);
    assert((d.len() / 2 + 1) * 0xFFFF <= u32::MAX) by (nonlinear_arith)
        requires d.len() <= 0x1_0000;
}

/// A word sum over fewer bytes is no larger.
proof fn lemma_pairs_sum_mono(d: Seq<u8>, m: nat, n: nat)
    requires
        m <= n,
        m % 2 == 0,
        n % 2 == 0,
    ensures
        pairs_sum(d, m) <= pairs_sum(d, n),
    decreases n,
{
    if m < n {
        lemma_pairs_sum_mono(d, m, (n - 2) as nat);
    }
}

/// Folding keeps the value modulo 0xFFFF, yields at most 16 bits, and is zero only for zero.
pub proof fn lemma_fold16(s: nat)
    ensures
        fold16(s) < 0x10000,
        fold16(s) % 0xFFFF == s % 0xFFFF,
        s > 0 ==> fold16(s) > 0,
    decreases s,
{
    if s >= 0x10000 {
        let t = s % 0x10000 + s / 0x10000;
        assert(t < s && t % 0xFFFF == s % 0xFFFF && t > 0) by (nonlinear_arith)
            requires s >= 0x10000, t == s % 0x10000 + s / 0x10000;
        lemma_fold16(t);
    }
}

/// `init` plus the word sum of `data`.
pub(crate) fn sum_words(init: u32, data: &[u8]) -> (s: u32)
    requires
        init + word_sum(data@) <= u32::MAX,
    ensures
        s == init + word_sum(data@),
{
    let mut sum: u32 = init;
    let mut i: usize = 0;
    let ghost last_even: nat = (data@.len() - data@.len() % 2) as nat;
    proof {
        lemma_pairs_sum_mono(data@, last_even, last_even);
    }
    while i + 1 < data.len()
        invariant
            i <= data@.len(),
            i % 2 == 0,
            sum == init + pairs_sum(data@, i as nat),
            init + word_sum(data@) <= u32::MAX,
            last_even == data@.len() - data@.len() % 2,
            pairs_sum(data@, last_even) <= word_sum(data@),
        decreases data@.len() - i,
    {
        proof {
            lemma_pairs_sum_mono(data@, (i + 2) as nat, last_even);
        }
        sum = sum + read_be16(data[i], data[i + 1]) as u32;
        i = i + 2;
    }
    if i < data.len() {
        sum = sum + (data[i] as u32) * 256;
    }
    sum
}

/// The ones' complement of `sum` folded to 16 bits.
pub(crate) fn fold_complement(sum: u32) -> (c: u16)
    ensures
        c == (0xFFFF - fold16(sum as nat)) as u16,
{
    let mut s = sum;
    while (s >> 16) != 0
        invariant
            fold16(s as nat) == fold16(sum as nat),
        decreases s,
    {
        assert(((s >> 16) != 0 ==> s >= 0x10000) && (s & 0xFFFF == s % 0x10000 && s >> 16 == s / 0x10000)) by (bit_vector);
        s = (s & 0xFFFF) + (s >> 16);
    }
    assert(((s >> 16) == 0 ==> s < 0x10000) && (s < 0x10000 ==> (!s) as u16 == 0xFFFF - s)) by (bit_vector);
    !s as u16
}

/// Calculate the Internet checksum of `data`
pub fn checksum(data: &[u8]) -> (c: u16)
    requires
        word_sum(data@) <= u32::MAX,
    ensures
        c == checksum_of(0, data@),
{
    let s = sum_words(0, data);
    fold_complement(s)
}

/// Word sum after the word at even offset `k` is replaced by `hi`, `lo`.
proof fn lemma_pairs_sum_update(d: Seq<u8>, n: nat, k: int, hi: u8, lo: u8)
    requires
        n <= d.len(),
        n % 2 == 0,
        k % 2 == 0,
        0 <= k,
        k + 1 < d.len(),
    ensures
        k + 1 < n ==> pairs_sum(d.update(k, hi).update(k + 1, lo), n)
            == pairs_sum(d, n) - (d[k] * 256 + d[k + 1]) + (hi * 256 + lo),
        k + 1 >= n ==> pairs_sum(d.update(k, hi).update(k + 1, lo), n) == pairs_sum(d, n),
    decreases n,
{
    if n >= 2 {
        lemma_pairs_sum_update(d, (n - 2) as nat, k, hi, lo);
    }
}

/// A checksum written into the (zeroed, even-aligned) checksum field of the data it
/// was computed over makes the checksum of the result zero.
pub proof fn law_checksum_verifies(init: nat, d: Seq<u8>, k: int)
    requires
        0 <= k,
        k % 2 == 0,
        k + 1 < d.len(),
        d[k] == 0,
        d[k + 1] == 0,
    ensures
        ({
            let c = checksum_of(init, d);
            let filled = d.update(k, (c / 256) as u8).update(k + 1, (c % 256) as u8);
            checksum_of(init, filled) == 0
        }),
{
    let c = checksum_of(init, d);
    let hi = (c / 256) as u8;
    let lo = (c % 256) as u8;
    let filled = d.update(k, hi).update(k + 1, lo);
    let s = init + word_sum(d);
    lemma_fold16(s);
    let f = fold16(s);
    assert(c == 0xFFFF - f);
    assert(hi * 256 + lo == c);
    if d.len() % 2 == 0 {
        lemma_pairs_sum_update(d, d.len(), k, hi, lo);
    } else {
        lemma_pairs_sum_update(d, (d.len() - 1) as nat, k, hi, lo);
        assert(k + 1 < d.len() - 1);
    }
    let s2 = init + word_sum(filled);
    assert(s2 == s + c);
    lemma_fold16(s2);
    assert(s2 % 0xFFFF == 0 && s2 > 0) by (nonlinear_arith)
        requires
            s2 == s + (0xFFFF - f),
            f % 0xFFFF == s % 0xFFFF,
            f < 0x10000,
            s > 0 ==> f > 0,
            s == 0 ==> f == 0,
    ;
    assert(fold16(s2) == 0xFFFF) by (nonlinear_arith)
        requires
            fold16(s2) < 0x10000,
            fold16(s2) > 0,
            fold16(s2) % 0xFFFF == 0,
    ;
}

// ---------------------------------------------------------------------------
// The header
// ---------------------------------------------------------------------------

/// IPv4 header, with the bytes that follow its fixed part in the packet (options, then payload)
#[derive(Debug, Clone)]
pub struct Ipv4Header {
    /// Version (4 bits) + IHL (4 bits)
    pub version_ihl: u8,
    /// DSCP (6 bits) + ECN (2 bits)
    pub dscp_ecn: u8,
    /// Total length
    pub total_length: [u8; 2],
    /// Identification
    pub identification: [u8; 2],
    /// Flags (3 bits) + Fragment offset (13 bits)
    pub flags_fragment: [u8; 2],
    /// Time to live
    pub ttl: u8,
    /// Protocol
    pub protocol: u8,
    /// Header checksum
    pub checksum: [u8; 2],
    /// Source address
    pub src_addr: [u8; 4],
    /// Destination address
    pub dst_addr: [u8; 4],
    /// The bytes after the fixed header
    pub rest: Vec<u8>,
}

impl Ipv4Header {
    /// The header's bytes as they lie in the packet: the fixed part, then what follows.
    pub open spec fn bytes(&self) -> Seq<u8> {
        seq![self.version_ihl, self.dscp_ecn] + self.total_length@ + self.identification@ + self.flags_fragment@
            + seq![self.ttl, self.protocol] + self.checksum@ + self.src_addr@ + self.dst_addr@ + self.rest@
    }

    /// Read the header at the front of a packet of at least 20 bytes
    pub fn parse(data: &[u8]) -> (r: Option<Ipv4Header>)
        ensures
            data@.len() < IPV4_HEADER_MIN ==> r is None,
            data@.len() >= IPV4_HEADER_MIN ==> r is Some && r.unwrap().bytes() == data@,
    {
        if data.len() < IPV4_HEADER_MIN {
            return None;
        }
        let mut rest: Vec<u8> = Vec::new();
        push_bytes(&mut rest, vstd::slice::slice_subrange(data, 20, data.len()));
        let h = Ipv4Header {
            version_ihl: data[0],
            dscp_ecn: data[1],
            total_length: [data[2], data[3]],
            identification: [data[4], data[5]],
            flags_fragment: [data[6], data[7]],
            ttl: data[8],
            protocol: data[9],
            checksum: [data[10], data[11]],
            src_addr: [data[12], data[13], data[14], data[15]],
            dst_addr: [data[16], data[17], data[18], data[19]],
            rest,
        };
        assert(h.bytes() =~= data@);
        Some(h)
    }

    /// Get IP version (the high four bits)
    pub fn version(&self) -> (v: u8)
        ensures
            v == self.version_ihl / 16,
    {
        let x = self.version_ihl;
        proof {
            crate::bits::lemma_byte_bits();
        }
        assert((x >> 4) & 0x0F == x / 16);
        (x >> 4) & 0x0F
    }

    /// Get header length in bytes (the low four bits count 32-bit words)
    pub fn header_length(&self) -> (n: usize)
        ensures
            n == (self.version_ihl % 16) * 4,
    {
        let x = self.version_ihl;
        proof {
            crate::bits::lemma_byte_bits();
        }
        assert(x & 0x0F == x % 16);
        ((x & 0x0F) as usize) * 4
    }

    /// Get total packet length
    pub fn total_length(&self) -> (n: u16)
        ensures
            n == be16(self.total_length@[0], self.total_length@[1]),
    {
        read_be16(self.total_length[0], self.total_length[1])
    }

    /// Get source address
    pub fn source(&self) -> (a: Ipv4Address)
        ensures
            a.0@ == self.src_addr@,
    {
        Ipv4Address(self.src_addr)
    }

    /// Get destination address
    pub fn destination(&self) -> (a: Ipv4Address)
        ensures
            a.0@ == self.dst_addr@,
    {
        Ipv4Address(self.dst_addr)
    }

    /// Calculate the checksum over the header's bytes (its length from the IHL field)
    pub fn calculate_checksum(&self) -> (c: u16)
        requires
            (self.version_ihl % 16) * 4 <= 20 + self.rest@.len(),
        ensures
            c == checksum_of(0, self.bytes().subrange(0, (self.version_ihl % 16) * 4)),
    {
        let header_len = self.header_length();
        let mut bytes: Vec<u8> = Vec::new();
        bytes.push(self.version_ihl);
        bytes.push(self.dscp_ecn);
        push_bytes(&mut bytes, &self.total_length);
        push_bytes(&mut bytes, &self.identification);
        push_bytes(&mut bytes, &self.flags_fragment);
        bytes.push(self.ttl);
        bytes.push(self.protocol);
        push_bytes(&mut bytes, &self.checksum);
        push_bytes(&mut bytes, &self.src_addr);
        push_bytes(&mut bytes, &self.dst_addr);
        push_bytes(&mut bytes, self.rest.as_slice());
        assert(bytes@ =~= self.bytes());
        proof {
            lemma_short_word_sum(bytes@.subrange(0, header_len as int));
        }
        checksum(vstd::slice::slice_subrange(bytes.as_slice(), 0, header_len))
    }

    /// Verify header checksum: the checksum over the header, its own field included, is zero
    pub fn verify_checksum(&self) -> (b: bool)
        requires
            (self.version_ihl % 16) * 4 <= 20 + self.rest@.len(),
        ensures
            b == (checksum_of(0, self.bytes().subrange(0, (self.version_ihl % 16) * 4)) == 0),
    {
        self.calculate_checksum() == 0
    }
}

/// What an IPv4 packet was found to be.
pub enum Ipv4Event {
    /// An ICMP message
    Icmp(IcmpEvent),
    /// A UDP datagram
    Udp(UdpEvent),
    /// A TCP segment
    Tcp(TcpEvent),
    /// Too short, not version 4, or of another protocol
    Ignored,
}

/// Whether a packet passes the checks before its payload is handed on: a whole
/// header, version 4, and as long as its header length.
pub open spec fn ipv4_accepts(data: Seq<u8>) -> bool {
    data.len() >= IPV4_HEADER_MIN && data[0] / 16 == 4 && data.len() >= (data[0] % 16) * 4
}

/// The payload of a packet: what follows its header.
pub open spec fn ipv4_payload(data: Seq<u8>) -> Seq<u8> {
    data.subrange((data[0] % 16) * 4, data.len() as int)
}

/// Process an IPv4 packet: check it, then hand its payload to ICMP, UDP or TCP
pub fn process_packet(tcp: &mut TcpTable, data: &[u8]) -> (e: Ipv4Event)
    requires
        old(tcp).wf(),
    ensures
        final(tcp).wf(),
        data@.len() < IPV4_HEADER_MIN ==> e is Ignored,
        data@.len() >= IPV4_HEADER_MIN && data@[0] / 16 != 4 ==> e is Ignored,
        data@.len() >= IPV4_HEADER_MIN && data@.len() < (data@[0] % 16) * 4 ==> e is Ignored,
        data@.len() >= IPV4_HEADER_MIN && data@[9] != PROTOCOL_ICMP && data@[9] != PROTOCOL_UDP
            && data@[9] != PROTOCOL_TCP ==> e is Ignored,
        !(e is Tcp) ==> final(tcp)@ == old(tcp)@,
        ipv4_accepts(data@) && data@[9] == PROTOCOL_ICMP ==> ({
            &&& e matches Ipv4Event::Icmp(ev)
            &&& exists|s: Ipv4Address| s.0@ == data@.subrange(12, 16) && #[trigger] icmp::icmp_outcome(
                s,
                ipv4_payload(data@),
                ev,
            )
        }),
        ipv4_accepts(data@) && data@[9] == PROTOCOL_UDP ==> ({
            &&& e matches Ipv4Event::Udp(ev)
            &&& exists|s: Ipv4Address| s.0@ == data@.subrange(12, 16) && #[trigger] udp::udp_outcome(
                s,
                ipv4_payload(data@),
                ev,
            )
        }),
        ipv4_accepts(data@) && data@[9] == PROTOCOL_TCP ==> ({
            &&& e matches Ipv4Event::Tcp(ev)
            &&& exists|s: Ipv4Address, d: Ipv4Address|
                s.0@ == data@.subrange(12, 16) && d.0@ == data@.subrange(16, 20) && #[trigger] tcp::tcp_outcome(
                    old(tcp)@,
                    final(tcp)@,
                    s,
                    d,
                    ipv4_payload(data@),
                    ev,
                )
        }),
{
    let header = match Ipv4Header::parse(data) {
        Some(h) => h,
        None => {
            return Ipv4Event::Ignored;
        },
    };
    if header.version() != 4 {
        return Ipv4Event::Ignored;
    }
    let header_len = header.header_length();
    if data.len() < header_len {
        return Ipv4Event::Ignored;
    }
    let payload = vstd::slice::slice_subrange(data, header_len, data.len());
    proof {
        let b = header.bytes();
        assert(b[0] == header.version_ihl);
        assert(b[9] == header.protocol);
        assert(b.subrange(12, 16) =~= header.src_addr@);
        assert(b.subrange(16, 20) =~= header.dst_addr@);
        assert(payload@ == ipv4_payload(data@));
    }
    let s = header.source();
    let d = header.destination();
    if header.protocol == PROTOCOL_ICMP {
        let ev = icmp::process_packet(s, d, payload);
        assert(icmp::icmp_outcome(s, ipv4_payload(data@), ev));
        Ipv4Event::Icmp(ev)
    } else if header.protocol == PROTOCOL_UDP {
        let ev = udp::process_packet(s, d, payload);
        assert(udp::udp_outcome(s, ipv4_payload(data@), ev));
        Ipv4Event::Udp(ev)
    } else if header.protocol == PROTOCOL_TCP {
        let ghost before = tcp@;
        let ev = tcp::process_packet(tcp, s, d, payload);
        assert(tcp::tcp_outcome(before, tcp@, s, d, ipv4_payload(data@), ev));
        Ipv4Event::Tcp(ev)
    } else {
        Ipv4Event::Ignored
    }
}

/// The header bytes `create_packet` writes, before the checksum is filled in.
pub open spec fn header_template(src: Ipv4Address, dst: Ipv4Address, protocol: u8, ttl: u8, total_len: u16) -> Seq<u8> {
    seq![0x45u8, 0] + be16_bytes(total_len) + seq![0u8, 0, 0, 0, ttl, protocol, 0, 0] + src.0@ + dst.0@
}

/// Create an IPv4 packet: a 20-byte header (version 4, no options, the given TTL and
/// protocol, checksum over the header) followed by the payload
pub fn create_packet(src: Ipv4Address, dst: Ipv4Address, protocol: u8, ttl: u8, payload: &[u8]) -> (p: Vec<u8>)
    requires
        IPV4_HEADER_MIN + payload@.len() <= usize::MAX,
    ensures
        ({
            let total_len = ((IPV4_HEADER_MIN + payload@.len()) % 0x10000) as u16;
            let h = header_template(src, dst, protocol, ttl, total_len);
            let c = checksum_of(0, h);
            &&& p@.len() == IPV4_HEADER_MIN + payload@.len()
            &&& p@.subrange(0, 20) == h.update(10, (c / 256) as u8).update(11, (c % 256) as u8)
            &&& p@.subrange(20, p@.len() as int) == payload@
        }),
{
    let total = IPV4_HEADER_MIN + payload.len();
    let total_len = (total % 0x10000) as u16;
    let mut packet: Vec<u8> = Vec::new();
    packet.push(0x45);
    packet.push(0);
    push_be16(&mut packet, total_len);
    push_be16(&mut packet, 0);
    push_be16(&mut packet, 0);
    packet.push(ttl);
    packet.push(protocol);
    push_be16(&mut packet, 0);
    push_bytes(&mut packet, &src.0);
    push_bytes(&mut packet, &dst.0);
    let ghost h = header_template(src, dst, protocol, ttl, total_len);
    assert(packet@ =~= h);
    push_bytes(&mut packet, payload);
    proof {
        lemma_short_word_sum(packet@.subrange(0, IPV4_HEADER_MIN as int));
    }
    let cksum = checksum(vstd::slice::slice_subrange(packet.as_slice(), 0, IPV4_HEADER_MIN));
    assert(packet@.subrange(0, 20) =~= h);
    set_be16(&mut packet, 10, cksum);
    assert(packet@.subrange(0, 20) =~= h.update(10, (cksum / 256) as u8).update(11, (cksum % 256) as u8));
    assert(packet@.subrange(20, packet@.len() as int) =~= payload@);
    packet
}

/// The header of every packet `create_packet` builds passes the checksum test.
pub proof fn law_created_header_verifies(src: Ipv4Address, dst: Ipv4Address, protocol: u8, ttl: u8, total_len: u16)
    ensures
        ({
            let h = header_template(src, dst, protocol, ttl, total_len);
            let c = checksum_of(0, h);
            checksum_of(0, h.update(10, (c / 256) as u8).update(11, (c % 256) as u8)) == 0
        }),
{
    let h = header_template(src, dst, protocol, ttl, total_len);
    assert(h.len() == 20);
    assert(h[10] == 0 && h[11] == 0);
    law_checksum_verifies(0, h, 10);
}

} // verus!
