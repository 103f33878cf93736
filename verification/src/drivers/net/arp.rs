//! ARP: the cache mapping IPv4 addresses to hardware addresses, and ARP packets.
use vstd::prelude::*;
use super::{MacAddress, Ipv4Address, ip_value, be16, be16_bytes, read_be16, push_be16, push_bytes};

verus! {

/// ARP operation: request
pub const REQUEST: u16 = 1;
/// ARP operation: reply
pub const REPLY: u16 = 2;

/// ARP cache timeout (5 minutes), in milliseconds
pub const ARP_TIMEOUT: u64 = 300000;

/// Size of an ARP packet for Ethernet and IPv4
pub const ARP_PACKET_SIZE: usize = 28;

/// ARP header (for Ethernet/IPv4)
#[derive(Clone, Copy)]
pub struct ArpHeader {
    /// Hardware type (1 = Ethernet)
    pub htype: [u8; 2],
    /// Protocol type (0x0800 = IPv4)
    pub ptype: [u8; 2],
    /// Hardware address length (6 for Ethernet)
    pub hlen: u8,
    /// Protocol address length (4 for IPv4)
    pub plen: u8,
    /// Operation (1 = request, 2 = reply)
    pub oper: [u8; 2],
    /// Sender hardware address
    pub sha: [u8; 6],
    /// Sender protocol address
    pub spa: [u8; 4],
    /// Target hardware address
    pub tha: [u8; 6],
    /// Target protocol address
    pub tpa: [u8; 4],
}

/// ARP cache entry
#[derive(Clone, Copy)]
pub struct ArpEntry {
    pub mac: MacAddress,
    pub timestamp: u64,
    pub state: ArpState,
}

/// ARP entry state
#[derive(Debug, Clone, Copy, PartialEq, Eq, Structural)]
pub enum ArpState {
    /// Entry is valid
    Valid,
    /// Waiting for reply
    Pending,
    /// Entry has expired
    Stale,
}

/// One cached address.
#[derive(Clone, Copy)]
pub struct ArpSlot {
    pub ip: Ipv4Address,
    pub entry: ArpEntry,
}

/// The ARP cache, ordered by address (each address once).
pub struct ArpCache {
    pub slots: Vec<ArpSlot>,
}

impl ArpCache {
    /// Addresses strictly increase along the cache.
    pub open spec fn wf(&self) -> bool {
        forall|i: int, j: int| 0 <= i < j < self.slots@.len()
            ==> ip_value(#[trigger] self.slots@[i].ip) < ip_value(#[trigger] self.slots@[j].ip)
    }

    /// The position of the entry for `ip`, if any.
    pub open spec fn index_of(&self, ip: u32) -> Option<int> {
        if exists|i: int| 0 <= i < self.slots@.len() && ip_value(#[trigger] self.slots@[i].ip) == ip {
            Some(choose|i: int| 0 <= i < self.slots@.len() && ip_value(#[trigger] self.slots@[i].ip) == ip)
        } else {
            None
        }
    }

    /// An empty cache.
    pub fn new() -> (c: ArpCache)
        ensures
            c.wf(),
            c.slots@.len() == 0,
    {
        ArpCache { slots: Vec::new() }
    }
}

/// Initialize ARP: the cache starts empty
pub fn init() -> (c: ArpCache)
    ensures
        c.wf(),
        c.slots@.len() == 0,
{
    ArpCache::new()
}

fn find_slot(cache: &ArpCache, ip: Ipv4Address) -> (r: Option<usize>)
    requires
        cache.wf(),
    ensures
        match r {
            Some(i) => cache.index_of(ip_value(ip)) == Some(i as int),
            None => cache.index_of(ip_value(ip)) is None,
        },
{
    let key = ip.to_u32();
    let mut i: usize = 0;
    while i < cache.slots.len()
        invariant
            i <= cache.slots@.len(),
            key == ip_value(ip),
            cache.wf(),
            forall|k: int| 0 <= k < i ==> ip_value(#[trigger] cache.slots@[k].ip) != key,
        decreases cache.slots@.len() - i,
    {
        if cache.slots[i].ip.to_u32() == key {
            proof {
                let c = choose|k: int| 0 <= k < cache.slots@.len() && ip_value(#[trigger] cache.slots@[k].ip) == key;
                if c < i {
                } else if c > i {
                    assert(ip_value(cache.slots@[i as int].ip) < ip_value(cache.slots@[c].ip));
                }
            }
            return Some(i);
        }
        i = i + 1;
    }
    None
}

/// Look up the MAC address for `ip`: only a valid entry answers
pub fn lookup(cache: &ArpCache, ip: Ipv4Address) -> (r: Option<MacAddress>)
    requires
        cache.wf(),
    ensures
        match cache.index_of(ip_value(ip)) {
            Some(i) => if cache.slots@[i].entry.state == ArpState::Valid {
                r is Some && r.unwrap().0@ == cache.slots@[i].entry.mac.0@
            } else {
                r is None
            },
            None => r is None,
        },
{
    match find_slot(cache, ip) {
        Some(i) => {
            if cache.slots[i].entry.state == ArpState::Valid {
                Some(cache.slots[i].entry.mac)
            } else {
                None
            }
        },
        None => None,
    }
}

/// The cache after `slot` is stored: it replaces the entry for its address, or goes
/// in at its place in address order.
pub open spec fn stored(old_slots: Seq<ArpSlot>, new_slots: Seq<ArpSlot>, slot: ArpSlot) -> bool {
    if exists|i: int| 0 <= i < old_slots.len() && ip_value(#[trigger] old_slots[i].ip) == ip_value(slot.ip) {
        exists|i: int| 0 <= i < old_slots.len() && ip_value(#[trigger] old_slots[i].ip) == ip_value(slot.ip)
            && new_slots == old_slots.update(i, slot)
    } else {
        exists|p: int| 0 <= p <= old_slots.len() && new_slots == old_slots.insert(p, slot)
    }
}

/// Add (or refresh) a valid entry for `ip`, stamped `timestamp`
pub fn add_entry(cache: &mut ArpCache, ip: Ipv4Address, mac: MacAddress, timestamp: u64)
    requires
        old(cache).wf(),
    ensures
        final(cache).wf(),
        exists|slot: ArpSlot| stored(old(cache).slots@, final(cache).slots@, slot) && slot.ip.0@ == ip.0@
            && slot.entry.mac.0@ == mac.0@ && slot.entry.timestamp == timestamp && slot.entry.state == ArpState::Valid,
{
    let slot = ArpSlot { ip, entry: ArpEntry { mac, timestamp, state: ArpState::Valid } };
    let key = ip.to_u32();
    let ghost old_slots = cache.slots@;
    let mut i: usize = 0;
    while i < cache.slots.len() && cache.slots[i].ip.to_u32() < key
        invariant
            i <= cache.slots@.len(),
            cache.slots@ == old_slots,
            cache.wf(),
            key == ip_value(ip),
            forall|k: int| 0 <= k < i ==> ip_value(#[trigger] cache.slots@[k].ip) < key,
        decreases cache.slots@.len() - i,
    {
        i = i + 1;
    }
    if i < cache.slots.len() && cache.slots[i].ip.to_u32() == key {
        cache.slots.set(i, slot);
        proof {
            assert forall|a: int, b: int| 0 <= a < b < cache.slots@.len()
                implies ip_value(#[trigger] cache.slots@[a].ip) < ip_value(#[trigger] cache.slots@[b].ip) by {
                assert(ip_value(old_slots[a].ip) < ip_value(old_slots[b].ip));
            }
            assert(cache.slots@ == old_slots.update(i as int, slot));
            assert(stored(old_slots, cache.slots@, slot));
        }
    } else {
        cache.slots.insert(i, slot);
        proof {
            let at = i as int;
            assert(cache.slots@ == old_slots.insert(at, slot));
            assert forall|a: int, b: int| 0 <= a < b < cache.slots@.len()
                implies ip_value(#[trigger] cache.slots@[a].ip) < ip_value(#[trigger] cache.slots@[b].ip) by {
                if b < at {
                    assert(ip_value(old_slots[a].ip) < ip_value(old_slots[b].ip));
                } else if b > at && a > at {
                    assert(ip_value(old_slots[a - 1].ip) < ip_value(old_slots[b - 1].ip));
                } else if b > at && a < at {
                    assert(ip_value(old_slots[a].ip) < ip_value(old_slots[b - 1].ip));
                } else if a == at && b - 1 > at {
                    assert(ip_value(old_slots[at].ip) < ip_value(old_slots[b - 1].ip));
                }
            }
            assert forall|k: int| 0 <= k < old_slots.len() implies ip_value(#[trigger] old_slots[k].ip) != key by {
                if k > at {
                    assert(ip_value(old_slots[at].ip) < ip_value(old_slots[k].ip));
                }
            }
            assert(stored(old_slots, cache.slots@, slot));
        }
    }
}

/// Remove the entry for `ip`, if any
pub fn remove_entry(cache: &mut ArpCache, ip: Ipv4Address)
    requires
        old(cache).wf(),
    ensures
        final(cache).wf(),
        match old(cache).index_of(ip_value(ip)) {
            Some(i) => final(cache).slots@ == old(cache).slots@.remove(i),
            None => final(cache).slots@ == old(cache).slots@,
        },
{
    match find_slot(cache, ip) {
        Some(i) => {
            let ghost old_slots = cache.slots@;
            cache.slots.remove(i);
            proof {
                assert forall|a: int, b: int| 0 <= a < b < cache.slots@.len()
                    implies ip_value(#[trigger] cache.slots@[a].ip) < ip_value(#[trigger] cache.slots@[b].ip) by {
                    let a0 = if a < i { a } else { a + 1 };
                    let b0 = if b < i { b } else { b + 1 };
                    assert(ip_value(old_slots[a0].ip) < ip_value(old_slots[b0].ip));
                }
            }
        },
        None => {},
    }
}

/// Read the ARP header at the front of a packet of at least 28 bytes.
pub fn parse_header(data: &[u8]) -> (h: ArpHeader)
    requires
        data@.len() >= ARP_PACKET_SIZE,
    ensures
        h.htype@ == data@.subrange(0, 2),
        h.ptype@ == data@.subrange(2, 4),
        h.hlen == data@[4],
        h.plen == data@[5],
        h.oper@ == data@.subrange(6, 8),
        h.sha@ == data@.subrange(8, 14),
        h.spa@ == data@.subrange(14, 18),
        h.tha@ == data@.subrange(18, 24),
        h.tpa@ == data@.subrange(24, 28),
{
    let h = ArpHeader {
        htype: [data[0], data[1]],
        ptype: [data[2], data[3]],
        hlen: data[4],
        plen: data[5],
        oper: [data[6], data[7]],
        sha: [data[8], data[9], data[10], data[11], data[12], data[13]],
        spa: [data[14], data[15], data[16], data[17]],
        tha: [data[18], data[19], data[20], data[21], data[22], data[23]],
        tpa: [data[24], data[25], data[26], data[27]],
    };
    assert(h.htype@ =~= data@.subrange(0, 2));
    assert(h.ptype@ =~= data@.subrange(2, 4));
    assert(h.oper@ =~= data@.subrange(6, 8));
    assert(h.sha@ =~= data@.subrange(8, 14));
    assert(h.spa@ =~= data@.subrange(14, 18));
    assert(h.tha@ =~= data@.subrange(18, 24));
    assert(h.tpa@ =~= data@.subrange(24, 28));
    h
}

/// Process an ARP packet received at `timestamp`: for Ethernet/IPv4, the sender's
/// addresses go into the cache, whatever the operation
pub fn process_packet(cache: &mut ArpCache, data: &[u8], timestamp: u64)
    requires
        old(cache).wf(),
    ensures
        final(cache).wf(),
        (data@.len() < ARP_PACKET_SIZE || be16(data@[0], data@[1]) != 1 || be16(data@[2], data@[3]) != 0x0800)
            ==> final(cache).slots@ == old(cache).slots@,
        !(data@.len() < ARP_PACKET_SIZE || be16(data@[0], data@[1]) != 1 || be16(data@[2], data@[3]) != 0x0800)
            ==> exists|slot: ArpSlot| stored(old(cache).slots@, final(cache).slots@, slot)
                && slot.ip.0@ == data@.subrange(14, 18) && slot.entry.mac.0@ == data@.subrange(8, 14)
                && slot.entry.timestamp == timestamp && slot.entry.state == ArpState::Valid,
{
    if data.len() < ARP_PACKET_SIZE {
        return;
    }
    let header = parse_header(data);
    let htype = read_be16(header.htype[0], header.htype[1]);
    let ptype = read_be16(header.ptype[0], header.ptype[1]);
    if htype != 1 || ptype != 0x0800 {
        return;
    }
    let sender_mac = MacAddress(header.sha);
    let sender_ip = Ipv4Address(header.spa);
    add_entry(cache, sender_ip, sender_mac, timestamp);
}

/// An ARP packet for Ethernet and IPv4.
pub open spec fn arp_packet(oper: u16, sha: Seq<u8>, spa: Seq<u8>, tha: Seq<u8>, tpa: Seq<u8>) -> Seq<u8> {
    seq![0u8, 1u8, 0x08u8, 0u8, 6u8, 4u8] + be16_bytes(oper) + sha + spa + tha + tpa
}

fn build_packet(oper: u16, sender_mac: &MacAddress, sender_ip: &Ipv4Address, target_mac: &[u8; 6], target_ip: &Ipv4Address)
    -> (p: Vec<u8>)
    ensures
        p@ == arp_packet(oper, sender_mac.0@, sender_ip.0@, target_mac@, target_ip.0@),
{
    let mut packet: Vec<u8> = Vec::new();
    push_be16(&mut packet, 1);
    push_be16(&mut packet, 0x0800);
    packet.push(6);
    packet.push(4);
    push_be16(&mut packet, oper);
    push_bytes(&mut packet, &sender_mac.0);
    push_bytes(&mut packet, &sender_ip.0);
    push_bytes(&mut packet, target_mac);
    push_bytes(&mut packet, &target_ip.0);
    assert(packet@ =~= arp_packet(oper, sender_mac.0@, sender_ip.0@, target_mac@, target_ip.0@));
    packet
}

/// Create ARP request packet (target hardware address unknown: zeros)
pub fn create_request(sender_mac: MacAddress, sender_ip: Ipv4Address, target_ip: Ipv4Address) -> (p: Vec<u8>)
    ensures
        p@ == arp_packet(REQUEST, sender_mac.0@, sender_ip.0@, seq![0u8, 0, 0, 0, 0, 0], target_ip.0@),
{
    let zeros = [0u8; 6];
    assert(zeros@ =~= seq![0u8, 0, 0, 0, 0, 0]);
    build_packet(REQUEST, &sender_mac, &sender_ip, &zeros, &target_ip)
}

/// Create ARP reply packet
pub fn create_reply(sender_mac: MacAddress, sender_ip: Ipv4Address, target_mac: MacAddress, target_ip: Ipv4Address)
    -> (p: Vec<u8>)
    ensures
        p@ == arp_packet(REPLY, sender_mac.0@, sender_ip.0@, target_mac.0@, target_ip.0@),
{
    build_packet(REPLY, &sender_mac, &sender_ip, &target_mac.0, &target_ip)
}

/// The valid entries, in address order.
pub open spec fn valid_slots(s: Seq<ArpSlot>) -> Seq<ArpSlot> {
    s.filter(|slot: ArpSlot| slot.entry.state == ArpState::Valid)
}

/// List the valid ARP cache entries, in address order
pub fn list_cache(cache: &ArpCache) -> (v: Vec<(Ipv4Address, MacAddress)>)
    ensures
        v@.len() == valid_slots(cache.slots@).len(),
        forall|i: int| 0 <= i < v@.len() ==> (#[trigger] v@[i]).0 == valid_slots(cache.slots@)[i].ip
            && v@[i].1 == valid_slots(cache.slots@)[i].entry.mac,
{
    let mut v: Vec<(Ipv4Address, MacAddress)> = Vec::new();
    let mut i: usize = 0;
    while i < cache.slots.len()
        invariant
            i <= cache.slots@.len(),
            v@.len() == valid_slots(cache.slots@.subrange(0, i as int)).len(),
            forall|k: int| 0 <= k < v@.len() ==> (#[trigger] v@[k]).0 == valid_slots(cache.slots@.subrange(0, i as int))[k].ip
                && v@[k].1 == valid_slots(cache.slots@.subrange(0, i as int))[k].entry.mac,
        decreases cache.slots@.len() - i,
    {
        proof {
            let s = cache.slots@.subrange(0, i as int + 1);
            assert(s.drop_last() =~= cache.slots@.subrange(0, i as int));
            reveal(Seq::filter);
        }
        let slot = cache.slots[i];
        if slot.entry.state == ArpState::Valid {
            v.push((slot.ip, slot.entry.mac));
        }
        i = i + 1;
    }
    assert(cache.slots@.subrange(0, cache.slots@.len() as int) =~= cache.slots@);
    v
}

} // verus!
