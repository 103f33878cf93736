//! Networking: hardware and IPv4 addresses, network interfaces, and the frame
//! and packet formats of the stack (Ethernet, ARP, IPv4, ICMP, UDP, TCP) with a
//! BSD-style socket table.

pub mod arp;
pub mod ethernet;
pub mod icmp;
pub mod ipv4;
pub mod socket;
pub mod tcp;
pub mod udp;

use vstd::prelude::*;
use crate::text::{push_char, push_decimal, decimal, split_on, split_chars, parse_u8, parse_unsigned, is_digit,
    unsigned_digits, decimal_value, lemma_decimal_digits, lemma_split_on_plain, lemma_split_on_append};
use crate::fs::ramfs::{name_le, names_le, lemma_name_le_total, lemma_name_le_antisymmetric, lemma_name_le_transitive};

verus! {

// ---------------------------------------------------------------------------
// Big-endian byte helpers shared by the packet formats
// ---------------------------------------------------------------------------

/// The 16-bit number with high byte `hi` and low byte `lo`.
pub open spec fn be16(hi: u8, lo: u8) -> u16 {
    (hi * 256 + lo) as u16
}

/// The two bytes of `x`, high first.
pub open spec fn be16_bytes(x: u16) -> Seq<u8> {
    seq![(x / 256) as u8, (x % 256) as u8]
}

/// The four bytes of `x`, most significant first.
pub open spec fn be32_bytes(x: u32) -> Seq<u8> {
    seq![(x / 0x1000000) as u8, ((x / 0x10000) % 256) as u8, ((x / 256) % 256) as u8, (x % 256) as u8]
}

/// The 32-bit number whose bytes, most significant first, are `a`, `b`, `c`, `d`.
pub open spec fn be32(a: u8, b: u8, c: u8, d: u8) -> u32 {
    (a * 0x1000000 + b * 0x10000 + c * 0x100 + d) as u32
}

pub(crate) fn read_be16(hi: u8, lo: u8) -> (x: u16)
    ensures
        x == be16(hi, lo),
{
    hi as u16 * 256 + lo as u16
}

pub(crate) fn read_be32(a: u8, b: u8, c: u8, d: u8) -> (x: u32)
    ensures
        x == be32(a, b, c, d),
{
    a as u32 * 0x1000000 + b as u32 * 0x10000 + c as u32 * 0x100 + d as u32
}

/// Append `x` big-endian.
pub(crate) fn push_be16(v: &mut Vec<u8>, x: u16)
    ensures
        final(v)@ == old(v)@ + be16_bytes(x),
{
    v.push((x / 256) as u8);
    v.push((x % 256) as u8);
    assert(v@ =~= old(v)@ + be16_bytes(x));
}

/// Append `x` big-endian.
pub(crate) fn push_be32(v: &mut Vec<u8>, x: u32)
    ensures
        final(v)@ == old(v)@ + be32_bytes(x),
{
    v.push((x / 0x1000000) as u8);
    v.push(((x / 0x10000) % 256) as u8);
    v.push(((x / 256) % 256) as u8);
    v.push((x % 256) as u8);
    assert(v@ =~= old(v)@ + be32_bytes(x));
}

/// Append the bytes of `s`.
pub(crate) fn push_bytes(v: &mut Vec<u8>, s: &[u8])
    ensures
        final(v)@ == old(v)@ + s@,
{
    let mut i: usize = 0;
    while i < s.len()
        invariant
            i <= s@.len(),
            v@ == old(v)@ + s@.subrange(0, i as int),
        decreases s@.len() - i,
    {
        v.push(s[i]);
        i = i + 1;
        assert(v@ =~= old(v)@ + s@.subrange(0, i as int));
    }
    assert(s@.subrange(0, s@.len() as int) =~= s@);
}

/// Overwrite two bytes at `at` with `x` big-endian.
pub(crate) fn set_be16(v: &mut Vec<u8>, at: usize, x: u16)
    requires
        at + 2 <= old(v)@.len(),
    ensures
        final(v)@ == old(v)@.update(at as int, (x / 256) as u8).update(at + 1, (x % 256) as u8),
{
    let n = v.len();
    assert(at + 1 < n);
    v.set(at, (x / 256) as u8);
    v.set(at + 1, (x % 256) as u8);
}

// ---------------------------------------------------------------------------
// Addresses
// ---------------------------------------------------------------------------

/// MAC address (6 bytes)
#[derive(Clone, Copy)]
pub struct MacAddress(pub [u8; 6]);

/// A lower-case hexadecimal digit.
pub open spec fn hex_digit(d: nat) -> char {
    if d < 10 { ((d + 0x30) as u8) as char } else { ((d - 10 + 0x61) as u8) as char }
}

fn hex_char(d: u8) -> (c: char)
    requires
        d < 16,
    ensures
        c == hex_digit(d as nat),
{
    if d < 10 { (d + 0x30) as char } else { (d - 10 + 0x61) as char }
}

/// Two lower-case hexadecimal digits for `b`.
pub open spec fn hex2(b: u8) -> Seq<char> {
    seq![hex_digit((b / 16) as nat), hex_digit((b % 16) as nat)]
}

impl MacAddress {
    /// The broadcast address, ff:ff:ff:ff:ff:ff
    pub fn broadcast() -> (m: MacAddress)
        ensures
            m.0@ == seq![0xFFu8, 0xFF, 0xFF, 0xFF, 0xFF, 0xFF],
    {
        let m = MacAddress([0xFF; 6]);
        assert(m.0@ =~= seq![0xFFu8, 0xFF, 0xFF, 0xFF, 0xFF, 0xFF]);
        m
    }

    /// The all-zero address
    pub fn zero() -> (m: MacAddress)
        ensures
            m.0@ == seq![0u8, 0, 0, 0, 0, 0],
    {
        let m = MacAddress([0; 6]);
        assert(m.0@ =~= seq![0u8, 0, 0, 0, 0, 0]);
        m
    }

    /// The address with these bytes
    pub fn new(bytes: [u8; 6]) -> (m: MacAddress)
        ensures
            m.0@ == bytes@,
    {
        MacAddress(bytes)
    }

    /// Whether every byte is 0xFF
    pub fn is_broadcast(&self) -> (b: bool)
        ensures
            b == (self.0@ == seq![0xFFu8, 0xFF, 0xFF, 0xFF, 0xFF, 0xFF]),
    {
        let b = self.0[0] == 0xFF && self.0[1] == 0xFF && self.0[2] == 0xFF && self.0[3] == 0xFF
            && self.0[4] == 0xFF && self.0[5] == 0xFF;
        if b {
            assert(self.0@ =~= seq![0xFFu8, 0xFF, 0xFF, 0xFF, 0xFF, 0xFF]);
        }
        b
    }

    /// Whether the group bit (bit 0 of the first byte) is set
    pub fn is_multicast(&self) -> (b: bool)
        ensures
            b == (self.0@[0] % 2 == 1),
    {
        let x = self.0[0];
        assert(((x & 0x01) != 0) == (x % 2 == 1)) by (bit_vector);
        (x & 0x01) != 0
    }

    /// The address as six pairs of lower-case hex digits joined by `:`
    pub fn to_text(&self) -> (s: String)
        ensures
            s@ == hex2(self.0@[0]) + seq![':'] + hex2(self.0@[1]) + seq![':'] + hex2(self.0@[2]) + seq![':']
                + hex2(self.0@[3]) + seq![':'] + hex2(self.0@[4]) + seq![':'] + hex2(self.0@[5]),
    {
        let mut s = String::new();
        let mut i: usize = 0;
        while i < 6
            invariant
                i <= 6,
                self.0@.len() == 6,
                i == 0 ==> s@.len() == 0,
                i > 0 ==> s@ == mac_text_prefix(self.0@, i as int),
            decreases 6 - i,
        {
            if i > 0 {
                push_char(&mut s, ':');
            }
            let b = self.0[i];
            push_char(&mut s, hex_char(b / 16));
            push_char(&mut s, hex_char(b % 16));
            proof {
                if i == 0 {
                    assert(s@ =~= mac_text_prefix(self.0@, 1));
                } else {
                    assert(s@ =~= mac_text_prefix(self.0@, i as int + 1));
                }
            }
            i = i + 1;
        }
        reveal_with_fuel(mac_text_prefix, 7);
        assert(mac_text_prefix(self.0@, 6) =~= hex2(self.0@[0]) + seq![':'] + hex2(self.0@[1]) + seq![':'] + hex2(self.0@[2])
            + seq![':'] + hex2(self.0@[3]) + seq![':'] + hex2(self.0@[4]) + seq![':'] + hex2(self.0@[5]));
        s
    }
}

/// The text of the first `n` (at least one) bytes of a MAC address.
pub open spec fn mac_text_prefix(b: Seq<u8>, n: int) -> Seq<char>
    decreases n,
{
    if n <= 1 {
        hex2(b[0])
    } else {
        mac_text_prefix(b, n - 1) + seq![':'] + hex2(b[n - 1])
    }
}

/// IPv4 address
#[derive(Clone, Copy)]
pub struct Ipv4Address(pub [u8; 4]);

/// The address as a number, first byte most significant.
pub open spec fn ip_value(a: Ipv4Address) -> u32 {
    be32(a.0@[0], a.0@[1], a.0@[2], a.0@[3])
}

impl Ipv4Address {
    /// 0.0.0.0
    pub fn unspecified() -> (a: Ipv4Address)
        ensures
            a.0@ == seq![0u8, 0, 0, 0],
    {
        Ipv4Address::new(0, 0, 0, 0)
    }

    /// 255.255.255.255
    pub fn broadcast() -> (a: Ipv4Address)
        ensures
            a.0@ == seq![255u8, 255, 255, 255],
    {
        Ipv4Address::new(255, 255, 255, 255)
    }

    /// 127.0.0.1
    pub fn localhost() -> (a: Ipv4Address)
        ensures
            a.0@ == seq![127u8, 0, 0, 1],
    {
        Ipv4Address::new(127, 0, 0, 1)
    }

    /// The address a.b.c.d
    pub fn new(a: u8, b: u8, c: u8, d: u8) -> (r: Ipv4Address)
        ensures
            r.0@ == seq![a, b, c, d],
    {
        let r = Ipv4Address([a, b, c, d]);
        assert(r.0@ =~= seq![a, b, c, d]);
        r
    }

    /// The address with these bytes
    pub fn from_bytes(bytes: [u8; 4]) -> (r: Ipv4Address)
        ensures
            r.0@ == bytes@,
    {
        Ipv4Address(bytes)
    }

    /// The address as a number, first byte most significant
    pub fn to_u32(&self) -> (v: u32)
        ensures
            v == ip_value(*self),
    {
        read_be32(self.0[0], self.0[1], self.0[2], self.0[3])
    }

    /// The address whose number is `val`
    pub fn from_u32(val: u32) -> (a: Ipv4Address)
        ensures
            a.0@ == be32_bytes(val),
    {
        let a = Ipv4Address([(val / 0x1000000) as u8, ((val / 0x10000) % 256) as u8, ((val / 256) % 256) as u8, (val % 256) as u8]);
        assert(a.0@ =~= be32_bytes(val));
        a
    }

    /// Whether this is 0.0.0.0
    pub fn is_unspecified(&self) -> (b: bool)
        ensures
            b == (self.0@ == seq![0u8, 0, 0, 0]),
    {
        let b = self.0[0] == 0 && self.0[1] == 0 && self.0[2] == 0 && self.0[3] == 0;
        if b {
            assert(self.0@ =~= seq![0u8, 0, 0, 0]);
        }
        b
    }

    /// Whether this is 255.255.255.255
    pub fn is_broadcast(&self) -> (b: bool)
        ensures
            b == (self.0@ == seq![255u8, 255, 255, 255]),
    {
        let b = self.0[0] == 255 && self.0[1] == 255 && self.0[2] == 255 && self.0[3] == 255;
        if b {
            assert(self.0@ =~= seq![255u8, 255, 255, 255]);
        }
        b
    }

    /// Whether this is in 127.0.0.0/8
    pub fn is_loopback(&self) -> (b: bool)
        ensures
            b == (self.0@[0] == 127),
    {
        self.0[0] == 127
    }

    /// Whether this is in 10.0.0.0/8, 172.16.0.0/12 or 192.168.0.0/16
    pub fn is_private(&self) -> (b: bool)
        ensures
            b == (self.0@[0] == 10 || (self.0@[0] == 172 && 16 <= self.0@[1] < 32)
                || (self.0@[0] == 192 && self.0@[1] == 168)),
    {
        let x = self.0[1];
        assert(((x & 0xF0) == 16) == (16 <= x && x < 32)) by (bit_vector);
        self.0[0] == 10 || (self.0[0] == 172 && (self.0[1] & 0xF0) == 16) || (self.0[0] == 192 && self.0[1] == 168)
    }

    /// Dotted decimal text, as a.b.c.d
    pub fn to_text(&self) -> (s: String)
        ensures
            s@ == ipv4_text(self.0@),
    {
        let mut s = String::new();
        push_decimal(&mut s, self.0[0] as u64);
        push_char(&mut s, '.');
        push_decimal(&mut s, self.0[1] as u64);
        push_char(&mut s, '.');
        push_decimal(&mut s, self.0[2] as u64);
        push_char(&mut s, '.');
        push_decimal(&mut s, self.0[3] as u64);
        s
    }
}

/// An address turned into a number and back is itself.
pub proof fn law_ip_u32_roundtrip(a: Ipv4Address)
    ensures
        be32_bytes(ip_value(a)) == a.0@,
{
    let (b0, b1, b2, b3) = (a.0@[0], a.0@[1], a.0@[2], a.0@[3]);
    let v = ip_value(a);
    assert(v / 0x1000000 == b0 && (v / 0x10000) % 256 == b1 && (v / 256) % 256 == b2 && v % 256 == b3) by (nonlinear_arith)
        requires
            v == b0 * 0x1000000 + b1 * 0x10000 + b2 * 0x100 + b3,
            b0 < 256, b1 < 256, b2 < 256, b3 < 256,
    ;
    assert(be32_bytes(v) =~= a.0@);
}

/// Dotted decimal text of four bytes: `a.b.c.d`.
pub open spec fn ipv4_text(b: Seq<u8>) -> Seq<char> {
    decimal(b[0] as nat) + seq!['.'] + decimal(b[1] as nat) + seq!['.'] + decimal(b[2] as nat) + seq!['.']
        + decimal(b[3] as nat)
}

/// The numeral of a byte reads back as the byte and holds no `.`.
proof fn lemma_byte_numeral(b: u8)
    ensures
        parse_unsigned(decimal(b as nat), 255) == Some(b as nat),
        !decimal(b as nat).contains('.'),
{
    let d = decimal(b as nat);
    lemma_decimal_digits(b as nat);
    assert(is_digit(d[0]));
    assert(unsigned_digits(d) == d);
    if d.contains('.') {
        let k = choose|k: int| 0 <= k < d.len() && d[k] == '.';
        assert(is_digit(d[k]));
    }
}

/// An address written as dotted decimal text parses back to itself.
pub proof fn law_ipv4_text_roundtrip(a: Ipv4Address)
    ensures
        parse_ipv4_spec(ipv4_text(a.0@)) == Some(a.0@),
{
    let b = a.0@;
    let d0 = decimal(b[0] as nat);
    let d1 = decimal(b[1] as nat);
    let d2 = decimal(b[2] as nat);
    let d3 = decimal(b[3] as nat);
    lemma_byte_numeral(b[0]);
    lemma_byte_numeral(b[1]);
    lemma_byte_numeral(b[2]);
    lemma_byte_numeral(b[3]);
    let x1 = d0.push('.') + d1;
    let x2 = x1.push('.') + d2;
    let t = x2.push('.') + d3;
    assert(t =~= ipv4_text(b));
    lemma_split_on_plain(d0, '.');
    lemma_split_on_append(d0, d1, '.');
    lemma_split_on_append(x1, d2, '.');
    lemma_split_on_append(x2, d3, '.');
    let parts = split_on(t, '.');
    assert(parts =~= seq![d0, d1, d2, d3]);
    assert(forall|i: int| 0 <= i < 4 ==> #[trigger] parse_unsigned(parts[i], 255) is Some) by {
        assert(parts[0] == d0 && parts[1] == d1 && parts[2] == d2 && parts[3] == d3);
    }
    assert(Seq::new(4, |i: int| parse_unsigned(parts[i], 255).unwrap() as u8) =~= b) by {
        assert(parts[0] == d0 && parts[1] == d1 && parts[2] == d2 && parts[3] == d3);
    }
}

/// The address that dotted decimal text denotes: exactly four `.`-separated parts,
/// each a decimal number up to 255 (an optional leading `+` allowed).
pub open spec fn parse_ipv4_spec(s: Seq<char>) -> Option<Seq<u8>> {
    let parts = split_on(s, '.');
    if parts.len() == 4 && (forall|i: int| 0 <= i < 4 ==> #[trigger] parse_unsigned(parts[i], 255) is Some) {
        Some(Seq::new(4, |i: int| parse_unsigned(parts[i], 255).unwrap() as u8))
    } else {
        None
    }
}

/// Parse IPv4 address from string
pub fn parse_ipv4(s: &str) -> (r: Option<Ipv4Address>)
    ensures
        match parse_ipv4_spec(s@) {
            Some(bytes) => r is Some && r.unwrap().0@ == bytes,
            None => r is None,
        },
{
    let parts = split_chars(s, '.');
    if parts.len() != 4 {
        return None;
    }
    let mut bytes = [0u8; 4];
    let mut i: usize = 0;
    while i < 4
        invariant
            i <= 4,
            parts@.len() == 4,
            split_on(s@, '.').len() == 4,
            forall|k: int| 0 <= k < 4 ==> #[trigger] parts@[k]@ == split_on(s@, '.')[k],
            bytes@.len() == 4,
            forall|k: int| 0 <= k < i ==> parse_unsigned(#[trigger] split_on(s@, '.')[k], 255) is Some
                && bytes@[k] == parse_unsigned(split_on(s@, '.')[k], 255).unwrap() as u8,
        decreases 4 - i,
    {
        match parse_u8(&parts[i]) {
            Some(b) => {
                bytes[i] = b;
            },
            None => {
                assert(parse_unsigned(split_on(s@, '.')[i as int], 255) is None);
                return None;
            },
        }
        i = i + 1;
    }
    let r = Ipv4Address(bytes);
    assert(r.0@ =~= Seq::new(4, |k: int| parse_unsigned(split_on(s@, '.')[k], 255).unwrap() as u8));
    Some(r)
}

// ---------------------------------------------------------------------------
// Interfaces
// ---------------------------------------------------------------------------

/// Network interface
pub struct NetworkInterface {
    /// Interface name (e.g., "eth0")
    pub name: String,
    /// MAC address
    pub mac: MacAddress,
    /// IPv4 address
    pub ipv4: Option<Ipv4Address>,
    /// Subnet mask
    pub netmask: Option<Ipv4Address>,
    /// Gateway address
    pub gateway: Option<Ipv4Address>,
    /// Interface is up
    pub up: bool,
    /// MTU
    pub mtu: u16,
    /// TX packet count
    pub tx_packets: u64,
    /// RX packet count
    pub rx_packets: u64,
    /// TX byte count
    pub tx_bytes: u64,
    /// RX byte count
    pub rx_bytes: u64,
}

impl NetworkInterface {
    /// A down interface with no address, MTU 1500 and zero counters
    pub fn new(name: &str, mac: MacAddress) -> (i: NetworkInterface)
        ensures
            i.name@ == name@,
            i.mac == mac,
            i.ipv4 is None,
            i.netmask is None,
            i.gateway is None,
            !i.up,
            i.mtu == 1500,
            i.tx_packets == 0,
            i.rx_packets == 0,
            i.tx_bytes == 0,
            i.rx_bytes == 0,
    {
        NetworkInterface {
            name: String::from_str(name),
            mac,
            ipv4: None,
            netmask: None,
            gateway: None,
            up: false,
            mtu: 1500,
            tx_packets: 0,
            rx_packets: 0,
            tx_bytes: 0,
            rx_bytes: 0,
        }
    }

    /// Configure IPv4 address
    pub fn set_ipv4(&mut self, addr: Ipv4Address, netmask: Ipv4Address, gateway: Option<Ipv4Address>)
        ensures
            *final(self) == (NetworkInterface { ipv4: Some(addr), netmask: Some(netmask), gateway, ..*old(self) }),
    {
        self.ipv4 = Some(addr);
        self.netmask = Some(netmask);
        self.gateway = gateway;
    }

    /// Bring interface up
    pub fn up(&mut self)
        ensures
            *final(self) == (NetworkInterface { up: true, ..*old(self) }),
    {
        self.up = true;
    }

    /// Bring interface down
    pub fn down(&mut self)
        ensures
            *final(self) == (NetworkInterface { up: false, ..*old(self) }),
    {
        self.up = false;
    }

    /// An equal copy of the interface
    pub fn duplicate(&self) -> (i: NetworkInterface)
        ensures
            i == *self,
    {
        NetworkInterface {
            name: self.name.clone(),
            mac: self.mac,
            ipv4: self.ipv4,
            netmask: self.netmask,
            gateway: self.gateway,
            up: self.up,
            mtu: self.mtu,
            tx_packets: self.tx_packets,
            rx_packets: self.rx_packets,
            tx_bytes: self.tx_bytes,
            rx_bytes: self.rx_bytes,
        }
    }
}

/// Name `a` sorts strictly before name `b`.
pub open spec fn name_lt(a: Seq<char>, b: Seq<char>) -> bool {
    name_le(a, b) && a != b
}

/// The network interfaces, kept in order of their names (each name once).
pub struct Interfaces {
    pub list: Vec<NetworkInterface>,
}

impl Interfaces {
    /// Names strictly increase along the list.
    pub open spec fn wf(&self) -> bool {
        forall|i: int, j: int| 0 <= i < j < self.list@.len()
            ==> name_lt(#[trigger] self.list@[i].name@, #[trigger] self.list@[j].name@)
    }

    /// The position of the interface named `name`, if any.
    pub open spec fn index_of(&self, name: Seq<char>) -> Option<int> {
        if exists|i: int| 0 <= i < self.list@.len() && #[trigger] self.list@[i].name@ == name {
            Some(choose|i: int| 0 <= i < self.list@.len() && #[trigger] self.list@[i].name@ == name)
        } else {
            None
        }
    }

    /// No interfaces.
    pub fn new() -> (s: Interfaces)
        ensures
            s.wf(),
            s.list@.len() == 0,
    {
        Interfaces { list: Vec::new() }
    }
}

proof fn lemma_index_unique(ifs: &Interfaces, i: int, j: int)
    requires
        ifs.wf(),
        0 <= i < ifs.list@.len(),
        0 <= j < ifs.list@.len(),
        ifs.list@[i].name@ == ifs.list@[j].name@,
    ensures
        i == j,
{
    if i < j {
        assert(name_lt(ifs.list@[i].name@, ifs.list@[j].name@));
    } else if j < i {
        assert(name_lt(ifs.list@[j].name@, ifs.list@[i].name@));
    }
}

fn find_interface(ifs: &Interfaces, name: &str) -> (r: Option<usize>)
    requires
        ifs.wf(),
    ensures
        match r {
            Some(i) => ifs.index_of(name@) == Some(i as int),
            None => ifs.index_of(name@) is None,
        },
{
    let target = String::from_str(name);
    let mut i: usize = 0;
    while i < ifs.list.len()
        invariant
            i <= ifs.list@.len(),
            target@ == name@,
            ifs.wf(),
            forall|k: int| 0 <= k < i ==> #[trigger] ifs.list@[k].name@ != name@,
        decreases ifs.list@.len() - i,
    {
        if names_le(&ifs.list[i].name, &target) && names_le(&target, &ifs.list[i].name) {
            proof {
                lemma_name_le_antisymmetric(ifs.list@[i as int].name@, name@);
                let c = choose|k: int| 0 <= k < ifs.list@.len() && #[trigger] ifs.list@[k].name@ == name@;
                lemma_index_unique(ifs, c, i as int);
            }
            return Some(i);
        }
        proof {
            if ifs.list@[i as int].name@ == name@ {
                lemma_name_le_total(name@, name@);
            }
        }
        i = i + 1;
    }
    None
}

/// The interfaces after `iface` is registered: it replaces the one of the same name,
/// or goes in at its place in name order.
pub open spec fn registered(old_list: Seq<NetworkInterface>, new_list: Seq<NetworkInterface>, iface: NetworkInterface) -> bool {
    if exists|i: int| 0 <= i < old_list.len() && #[trigger] old_list[i].name@ == iface.name@ {
        exists|i: int| 0 <= i < old_list.len() && #[trigger] old_list[i].name@ == iface.name@
            && new_list == old_list.update(i, iface)
    } else {
        exists|p: int| 0 <= p <= old_list.len() && new_list == old_list.insert(p, iface)
    }
}

/// Register a network interface under its name, replacing any of that name
pub fn register_interface(ifs: &mut Interfaces, iface: NetworkInterface)
    requires
        old(ifs).wf(),
    ensures
        final(ifs).wf(),
        registered(old(ifs).list@, final(ifs).list@, iface),
{
    let ghost old_list = ifs.list@;
    let mut i: usize = 0;
    while i < ifs.list.len() && !names_le(&iface.name, &ifs.list[i].name)
        invariant
            i <= ifs.list@.len(),
            ifs.list@ == old_list,
            ifs.wf(),
            forall|k: int| 0 <= k < i ==> name_lt(#[trigger] ifs.list@[k].name@, iface.name@),
        decreases ifs.list@.len() - i,
    {
        proof {
            lemma_name_le_total(iface.name@, ifs.list@[i as int].name@);
        }
        i = i + 1;
    }
    let at = i;
    if at < ifs.list.len() && names_le(&ifs.list[at].name, &iface.name) {
        proof { lemma_name_le_antisymmetric(ifs.list@[at as int].name@, iface.name@); }
        ifs.list.set(at, iface);
        proof {
            assert forall|a: int, b: int| 0 <= a < b < ifs.list@.len()
                implies name_lt(#[trigger] ifs.list@[a].name@, #[trigger] ifs.list@[b].name@) by {
                assert(name_lt(old_list[a].name@, old_list[b].name@));
            }
            assert(old_list[at as int].name@ == iface.name@);
            assert(ifs.list@ == old_list.update(at as int, iface));
        }
    } else {
        ifs.list.insert(at, iface);
        proof {
            let at = at as int;
            assert(ifs.list@ == old_list.insert(at, iface));
            if at < old_list.len() {
                assert(name_le(iface.name@, old_list[at].name@));
                assert(iface.name@ != old_list[at].name@);
            }
            assert forall|a: int, b: int| 0 <= a < b < ifs.list@.len()
                implies name_lt(#[trigger] ifs.list@[a].name@, #[trigger] ifs.list@[b].name@) by {
                if b < at {
                    assert(name_lt(old_list[a].name@, old_list[b].name@));
                } else if b == at {
                    assert(name_lt(old_list[a].name@, iface.name@));
                } else if a == at {
                    if b - 1 > at {
                        assert(name_lt(old_list[at].name@, old_list[b - 1].name@));
                        lemma_name_le_transitive(iface.name@, old_list[at].name@, old_list[b - 1].name@);
                        if iface.name@ == old_list[b - 1].name@ {
                            lemma_name_le_antisymmetric(iface.name@, old_list[at].name@);
                        }
                    }
                } else if a < at {
                    assert(name_lt(old_list[a].name@, old_list[b - 1].name@));
                } else {
                    assert(name_lt(old_list[a - 1].name@, old_list[b - 1].name@));
                }
            }
            assert forall|k: int| 0 <= k < old_list.len() implies #[trigger] old_list[k].name@ != iface.name@ by {
                if k < at {
                    assert(name_lt(old_list[k].name@, iface.name@));
                } else if k > at {
                    assert(name_lt(old_list[at].name@, old_list[k].name@));
                    if old_list[k].name@ == iface.name@ {
                        lemma_name_le_antisymmetric(iface.name@, old_list[at].name@);
                    }
                }
            }
        }
    }
}

/// Get interface by name
pub fn get_interface(ifs: &Interfaces, name: &str) -> (r: Option<NetworkInterface>)
    requires
        ifs.wf(),
    ensures
        match ifs.index_of(name@) {
            Some(i) => r == Some(ifs.list@[i]),
            None => r is None,
        },
{
    match find_interface(ifs, name) {
        Some(i) => Some(ifs.list[i].duplicate()),
        None => None,
    }
}

/// The names of all interfaces, in name order
pub fn list_interfaces(ifs: &Interfaces) -> (v: Vec<String>)
    ensures
        v@.len() == ifs.list@.len(),
        forall|i: int| 0 <= i < v@.len() ==> #[trigger] v@[i]@ == ifs.list@[i].name@,
{
    let mut v: Vec<String> = Vec::new();
    let mut i: usize = 0;
    while i < ifs.list.len()
        invariant
            i <= ifs.list@.len(),
            v@.len() == i,
            forall|k: int| 0 <= k < i ==> #[trigger] v@[k]@ == ifs.list@[k].name@,
        decreases ifs.list@.len() - i,
    {
        v.push(ifs.list[i].name.clone());
        i = i + 1;
    }
    v
}

/// Everything but the interface at `i` is unchanged, as is that interface's name.
pub open spec fn only_changed(old_list: Seq<NetworkInterface>, new_list: Seq<NetworkInterface>, i: int) -> bool {
    &&& new_list.len() == old_list.len()
    &&& forall|k: int| 0 <= k < old_list.len() && k != i ==> #[trigger] new_list[k] == old_list[k]
    &&& new_list[i].name@ == old_list[i].name@
}

/// Configure an interface's addresses and bring it up
pub fn configure_interface(ifs: &mut Interfaces, name: &str, ipv4: Ipv4Address, netmask: Ipv4Address, gateway: Option<Ipv4Address>)
    -> (r: Result<(), &'static str>)
    requires
        old(ifs).wf(),
    ensures
        final(ifs).wf(),
        match old(ifs).index_of(name@) {
            None => r is Err && final(ifs).list@ == old(ifs).list@,
            Some(i) => r is Ok && only_changed(old(ifs).list@, final(ifs).list@, i)
                && final(ifs).list@[i] == (NetworkInterface {
                    ipv4: Some(ipv4), netmask: Some(netmask), gateway, up: true, ..old(ifs).list@[i]
                }),
        },
{
    match find_interface(ifs, name) {
        None => Err("Interface not found"),
        Some(i) => {
            let mut iface = ifs.list[i].duplicate();
            iface.set_ipv4(ipv4, netmask, gateway);
            iface.up();
            let ghost old_list = ifs.list@;
            ifs.list.set(i, iface);
            proof {
                assert forall|a: int, b: int| 0 <= a < b < ifs.list@.len()
                    implies name_lt(#[trigger] ifs.list@[a].name@, #[trigger] ifs.list@[b].name@) by {
                    assert(name_lt(old_list[a].name@, old_list[b].name@));
                }
            }
            Ok(())
        },
    }
}

/// Account a packet of `data` sent through an interface that is up
pub fn send_packet(ifs: &mut Interfaces, iface_name: &str, data: &[u8]) -> (r: Result<(), &'static str>)
    requires
        old(ifs).wf(),
        match old(ifs).index_of(iface_name@) {
            Some(i) => old(ifs).list@[i].up ==> old(ifs).list@[i].tx_packets < u64::MAX && old(ifs).list@[i].tx_bytes
                + data@.len() <= u64::MAX,
            None => true,
        },
    ensures
        final(ifs).wf(),
        match old(ifs).index_of(iface_name@) {
            None => r == Err::<(), &'static str>("Interface not found") && final(ifs).list@ == old(ifs).list@,
            Some(i) => if !old(ifs).list@[i].up {
                r == Err::<(), &'static str>("Interface is down") && final(ifs).list@ == old(ifs).list@
            } else {
                r is Ok && only_changed(old(ifs).list@, final(ifs).list@, i)
                    && final(ifs).list@[i] == (NetworkInterface {
                        tx_packets: (old(ifs).list@[i].tx_packets + 1) as u64,
                        tx_bytes: (old(ifs).list@[i].tx_bytes + data@.len()) as u64,
                        ..old(ifs).list@[i]
                    })
            },
        },
{
    match find_interface(ifs, iface_name) {
        None => Err("Interface not found"),
        Some(i) => {
            if !ifs.list[i].up {
                return Err("Interface is down");
            }
            let mut iface = ifs.list[i].duplicate();
            iface.tx_packets = iface.tx_packets + 1;
            iface.tx_bytes = iface.tx_bytes + data.len() as u64;
            let ghost old_list = ifs.list@;
            ifs.list.set(i, iface);
            proof {
                assert forall|a: int, b: int| 0 <= a < b < ifs.list@.len()
                    implies name_lt(#[trigger] ifs.list@[a].name@, #[trigger] ifs.list@[b].name@) by {
                    assert(name_lt(old_list[a].name@, old_list[b].name@));
                }
            }
            Ok(())
        },
    }
}

/// Account a packet of `data` received on an interface (an unknown name is ignored)
pub fn account_receive(ifs: &mut Interfaces, iface_name: &str, data: &[u8])
    requires
        old(ifs).wf(),
        match old(ifs).index_of(iface_name@) {
            Some(i) => old(ifs).list@[i].rx_packets < u64::MAX && old(ifs).list@[i].rx_bytes + data@.len() <= u64::MAX,
            None => true,
        },
    ensures
        final(ifs).wf(),
        match old(ifs).index_of(iface_name@) {
            None => final(ifs).list@ == old(ifs).list@,
            Some(i) => only_changed(old(ifs).list@, final(ifs).list@, i)
                && final(ifs).list@[i] == (NetworkInterface {
                    rx_packets: (old(ifs).list@[i].rx_packets + 1) as u64,
                    rx_bytes: (old(ifs).list@[i].rx_bytes + data@.len()) as u64,
                    ..old(ifs).list@[i]
                }),
        },
{
    match find_interface(ifs, iface_name) {
        None => {},
        Some(i) => {
            let mut iface = ifs.list[i].duplicate();
            iface.rx_packets = iface.rx_packets + 1;
            iface.rx_bytes = iface.rx_bytes + data.len() as u64;
            let ghost old_list = ifs.list@;
            ifs.list.set(i, iface);
            proof {
                assert forall|a: int, b: int| 0 <= a < b < ifs.list@.len()
                    implies name_lt(#[trigger] ifs.list@[a].name@, #[trigger] ifs.list@[b].name@) by {
                    assert(name_lt(old_list[a].name@, old_list[b].name@));
                }
            }
        },
    }
}

/// A packet received on an interface (from the driver): account it, then pass a
/// frame of at least a header's length up the stack at `timestamp`
pub fn receive_packet(ifs: &mut Interfaces, arp_cache: &mut arp::ArpCache, tcp: &mut tcp::TcpTable, iface_name: &str,
    data: &[u8], timestamp: u64) -> (e: ethernet::FrameEvent)
    requires
        old(ifs).wf(),
        old(arp_cache).wf(),
        old(tcp).wf(),
        forall|i: int| 0 <= i < old(ifs).list@.len() ==> #[trigger] old(ifs).list@[i].rx_packets < u64::MAX
            && old(ifs).list@[i].rx_bytes + data@.len() <= u64::MAX,
    ensures
        final(ifs).wf(),
        final(arp_cache).wf(),
        final(tcp).wf(),
        match old(ifs).index_of(iface_name@) {
            None => final(ifs).list@ == old(ifs).list@,
            Some(i) => only_changed(old(ifs).list@, final(ifs).list@, i)
                && final(ifs).list@[i].rx_packets == old(ifs).list@[i].rx_packets + 1
                && final(ifs).list@[i].rx_bytes == old(ifs).list@[i].rx_bytes + data@.len(),
        },
        data@.len() < ethernet::ETH_HEADER_SIZE ==> e is Ignored && final(arp_cache).slots@ == old(arp_cache).slots@
            && final(tcp)@ == old(tcp)@,
{
    account_receive(ifs, iface_name, data);
    if data.len() >= ethernet::ETH_HEADER_SIZE {
        ethernet::process_frame(arp_cache, tcp, data, timestamp)
    } else {
        ethernet::FrameEvent::Ignored
    }
}

/// Register the loopback interface: "lo", zero MAC, 127.0.0.1/8, up, MTU 65535
pub fn init(ifs: &mut Interfaces)
    requires
        old(ifs).wf(),
    ensures
        final(ifs).wf(),
        exists|lo: NetworkInterface| registered(old(ifs).list@, final(ifs).list@, lo) && {
            &&& lo.name@ == "lo"@
            &&& lo.mac.0@ == seq![0u8, 0, 0, 0, 0, 0]
            &&& lo.ipv4 is Some && lo.ipv4.unwrap().0@ == seq![127u8, 0, 0, 1]
            &&& lo.netmask is Some && lo.netmask.unwrap().0@ == seq![255u8, 0, 0, 0]
            &&& lo.gateway is None
            &&& lo.up
            &&& lo.mtu == 65535
            &&& lo.tx_packets == 0 && lo.rx_packets == 0 && lo.tx_bytes == 0 && lo.rx_bytes == 0
        },
{
    let lo = NetworkInterface {
        name: String::from_str("lo"),
        mac: MacAddress::zero(),
        ipv4: Some(Ipv4Address::localhost()),
        netmask: Some(Ipv4Address::new(255, 0, 0, 0)),
        gateway: None,
        up: true,
        mtu: 65535,
        tx_packets: 0,
        rx_packets: 0,
        tx_bytes: 0,
        rx_bytes: 0,
    };
    let ghost g = lo;
    register_interface(ifs, lo);
    assert(registered(old(ifs).list@, ifs.list@, g));
}

} // verus!
