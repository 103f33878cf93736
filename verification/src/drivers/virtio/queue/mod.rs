//! Split virtqueues: the descriptor table, the available ring the driver fills,
//! and the used ring the device fills.
//!
//! Free descriptors form a list threaded through `next`; each request is a chain
//! of descriptors linked by `next` while the `NEXT` flag is set. The ghost fields
//! record the free list and every pending chain, and `wf` states that they are
//! linked as described and share no descriptor.
pub mod desc_flags;

use vstd::prelude::*;
use self::desc_flags::{NEXT, WRITE};

verus! {

/// Number of descriptors a queue has room for.
pub const MAX_QUEUE_SIZE: usize = 256;

/// A descriptor: one buffer of a request.
#[derive(Debug, Clone, Copy, PartialEq, Eq, Structural)]
pub struct Descriptor {
    /// Physical address of the buffer.
    pub addr: u64,
    /// Length of the buffer.
    pub len: u32,
    /// `desc_flags` bits.
    pub flags: u16,
    /// The next descriptor, when `NEXT` is set (and along the free list).
    pub next: u16,
}

impl Descriptor {
    /// An all-zero descriptor.
    pub fn zeroed() -> (d: Descriptor)
        ensures
            d == (Descriptor { addr: 0, len: 0, flags: 0, next: 0 }),
    {
        Descriptor { addr: 0, len: 0, flags: 0, next: 0 }
    }
}

/// The available ring: heads of chains offered to the device.
pub struct AvailableRing {
    pub flags: u16,
    /// Where the driver puts the next entry (free-running).
    pub idx: u16,
    pub ring: Vec<u16>,
    pub used_event: u16,
}

/// One used-ring entry: the head of a finished chain and the bytes written.
#[derive(Debug, Clone, Copy, PartialEq, Eq, Structural)]
pub struct UsedElement {
    pub id: u32,
    pub len: u32,
}

/// The used ring: chains the device has finished with.
pub struct UsedRing {
    pub flags: u16,
    /// Where the device puts the next entry (free-running).
    pub idx: u16,
    pub ring: Vec<UsedElement>,
    pub avail_event: u16,
}

/// A virtqueue.
pub struct VirtQueue {
    /// Queue index on the device.
    pub index: u16,
    /// Number of descriptors in use (at most `MAX_QUEUE_SIZE`).
    pub size: u16,
    pub descriptors: Vec<Descriptor>,
    pub available: AvailableRing,
    pub used: UsedRing,
    /// First free descriptor.
    pub free_head: u16,
    /// Number of free descriptors.
    pub num_free: u16,
    /// Used-ring entries consumed so far (free-running).
    pub last_used_idx: u16,
    /// Heads of the chains offered and not yet returned.
    pub pending: Vec<u16>,
    /// The free list, in order.
    pub free_list: Ghost<Seq<u16>>,
    /// The descriptors of each pending chain, in order; parallel to `pending`.
    pub chains: Ghost<Seq<Seq<u16>>>,
}

/// Whether `NEXT` is set in a descriptor's flags.
pub open spec fn has_next(flags: u16) -> bool {
    flags & NEXT != 0
}

/// The flags a chain's descriptor gets: `WRITE` for a device-written buffer,
/// `NEXT` for all but the last.
pub open spec fn chain_flags(device_write: bool, more: bool) -> u16 {
    (if device_write { WRITE } else { 0u16 }) | (if more { NEXT } else { 0u16 })
}

/// `NEXT` is set exactly for `more`, and setting it on a last descriptor makes it
/// one that is followed.
pub proof fn lemma_chain_flags(device_write: bool, more: bool)
    ensures
        has_next(chain_flags(device_write, more)) == more,
        chain_flags(device_write, false) | NEXT == chain_flags(device_write, true),
        chain_flags(device_write, false) == (if device_write { WRITE } else { 0u16 }),
{
    assert(((2u16 | 0u16) | 1u16 == 2u16 | 1u16) && ((0u16 | 0u16) | 1u16 == 0u16 | 1u16) && (2u16 | 0u16 == 2u16) && (0u16 | 0u16 == 0u16) && ((2u16 | 1u16) & 1u16 != 0u16) && ((0u16 | 1u16) & 1u16 != 0u16) && ((2u16 | 0u16) & 1u16 == 0u16) && ((0u16 | 0u16) & 1u16 == 0u16)) by (bit_vector);
}

/// A chain's descriptor describes its buffer (address, length, direction) and
/// whether more follow.
pub open spec fn desc_holds(d: Descriptor, buf: (u64, u32, bool), more: bool) -> bool {
    d.addr == buf.0 && d.len == buf.1 && d.flags == chain_flags(buf.2, more)
}

/// Each free descriptor but the last names the following one.
pub open spec fn free_linked(d: Seq<Descriptor>, fl: Seq<u16>) -> bool {
    forall|i: int| 0 <= i < fl.len() - 1 ==> (#[trigger] d[fl[i] as int]).next == fl[i + 1]
}

/// A chain of at least one descriptor, each but the last flagged `NEXT` and
/// naming the following one, the last not flagged.
pub open spec fn chain_linked(d: Seq<Descriptor>, c: Seq<u16>) -> bool {
    &&& c.len() >= 1
    &&& forall|k: int|
        0 <= k < c.len() - 1 ==> (#[trigger] d[c[k] as int]).next == c[k + 1] && has_next(d[c[k] as int].flags)
    &&& !has_next(d[c[c.len() - 1] as int].flags)
}

/// No descriptor appears twice among the chains.
pub open spec fn chains_disjoint(chains: Seq<Seq<u16>>) -> bool {
    forall|j1: int, k1: int, j2: int, k2: int|
        0 <= j1 < chains.len() && 0 <= j2 < chains.len() && 0 <= k1 < chains[j1].len() && 0 <= k2
            < chains[j2].len() && (j1 != j2 || k1 != k2) ==> #[trigger] chains[j1][k1] != #[trigger] chains[j2][k2]
}

/// Entries between the consumed and the produced used-ring index.
pub open spec fn used_backlog(q: VirtQueue) -> int {
    if q.used.idx >= q.last_used_idx {
        q.used.idx - q.last_used_idx
    } else {
        q.used.idx + 0x10000 - q.last_used_idx
    }
}

/// The successor of a free-running 16-bit index.
pub open spec fn next_index(i: u16) -> u16 {
    if i == 0xffff { 0 } else { (i + 1) as u16 }
}

/// The first position of `x` in `s` (meaningful when `s` contains `x`).
pub open spec fn first_pos(s: Seq<u16>, x: u16) -> int {
    choose|p: int| 0 <= p < s.len() && s[p] == x && forall|q: int| 0 <= q < p ==> s[q] != x
}

/// `q1` is `q0` after the chain of `bufs` was offered: the first `bufs.len()` free
/// descriptors, in order, hold the buffers (linked by `NEXT`), leave the free list
/// and form a new pending chain; the head goes into the next available-ring slot.
/// Nothing else changes.
pub open spec fn offered(q0: VirtQueue, q1: VirtQueue, bufs: Seq<(u64, u32, bool)>) -> bool {
    let n = bufs.len() as int;
    let c = q0.free_list@.take(n);
    &&& q1.free_list@ == q0.free_list@.skip(n)
    &&& q1.num_free == q0.num_free - n
    &&& q1.chains@ == q0.chains@.push(c)
    &&& q1.pending@ == q0.pending@.push(c[0])
    &&& forall|k: int| 0 <= k < n ==> desc_holds(#[trigger] q1.descriptors@[c[k] as int], bufs[k], k < n - 1)
    &&& forall|k: int| 0 <= k < n - 1 ==> (#[trigger] q1.descriptors@[c[k] as int]).next == c[k + 1]
    &&& forall|x: int|
        0 <= x < MAX_QUEUE_SIZE && !c.contains(x as u16) ==> #[trigger] q1.descriptors@[x] == q0.descriptors@[x]
    &&& q1.available.ring@ == q0.available.ring@.update((q0.available.idx % q0.size) as int, c[0])
    &&& q1.available.idx == next_index(q0.available.idx)
    &&& q1.available.flags == q0.available.flags
    &&& q1.available.used_event == q0.available.used_event
    &&& q1.size == q0.size && q1.index == q0.index
    &&& q1.used == q0.used
    &&& q1.last_used_idx == q0.last_used_idx
}

/// No value occurs twice and every value is below `n`: then there are at most `n`.
pub proof fn lemma_distinct_below(s: Seq<u16>, n: int)
    requires
        s.no_duplicates(),
        0 <= n,
        forall|i: int| 0 <= i < s.len() ==> s[i] < n,
    ensures
        s.len() <= n,
{
    let f = |x: u16| x as int;
    let m = s.map_values(f);
    assert(vstd::relations::injective(f));
    s.lemma_no_duplicates_injective(f);
    m.unique_seq_to_set();
    vstd::set_lib::lemma_int_range(0, n);
    assert forall|x: int| m.to_set().contains(x) implies vstd::set_lib::set_int_range(0, n).contains(x) by {
        let i = choose|i: int| 0 <= i < m.len() && m[i] == x;
        assert(m[i] == s[i] as int);
    }
    vstd::set_lib::lemma_len_subset(m.to_set(), vstd::set_lib::set_int_range(0, n));
}

impl VirtQueue {
    /// Sizes fit the tables; the free list and the pending chains are linked as
    /// described, lie below `size`, and share no descriptor.
    pub open spec fn wf(&self) -> bool {
        let d = self.descriptors@;
        let fl = self.free_list@;
        let ch = self.chains@;
        &&& 1 <= self.size <= MAX_QUEUE_SIZE
        &&& d.len() == MAX_QUEUE_SIZE
        &&& self.available.ring@.len() == MAX_QUEUE_SIZE
        &&& self.used.ring@.len() == MAX_QUEUE_SIZE
        &&& fl.len() == self.num_free
        &&& fl.no_duplicates()
        &&& forall|i: int| 0 <= i < fl.len() ==> #[trigger] fl[i] < self.size
        &&& self.num_free > 0 ==> fl[0] == self.free_head
        &&& free_linked(d, fl)
        &&& ch.len() == self.pending@.len()
        &&& forall|j: int| 0 <= j < ch.len() ==> chain_linked(d, #[trigger] ch[j]) && ch[j][0] == self.pending@[j]
        &&& forall|j: int, k: int| 0 <= j < ch.len() && 0 <= k < ch[j].len() ==> #[trigger] ch[j][k] < self.size
        &&& chains_disjoint(ch)
        &&& forall|j: int, k: int, i: int|
            0 <= j < ch.len() && 0 <= k < ch[j].len() && 0 <= i < fl.len() ==> #[trigger] ch[j][k] != #[trigger] fl[i]
    }

    /// A queue of `min(size, MAX_QUEUE_SIZE)` descriptors, all free and listed in
    /// order, with empty rings.
    pub fn new(index: u16, size: u16) -> (q: VirtQueue)
        requires
            size >= 1,
        ensures
            q.wf(),
            q.index == index,
            q.size == (if size < MAX_QUEUE_SIZE { size } else { MAX_QUEUE_SIZE as u16 }),
            q.num_free == q.size,
            q.free_head == 0,
            q.free_list@ == Seq::new(q.size as nat, |i: int| i as u16),
            q.pending@.len() == 0,
            q.available.idx == 0,
            q.used.idx == 0,
            q.last_used_idx == 0,
    {
        let size: u16 = if size < 256 { size } else { 256 };
        let mut descriptors: Vec<Descriptor> = Vec::new();
        let mut i: usize = 0;
        while i < MAX_QUEUE_SIZE
            invariant
                i <= MAX_QUEUE_SIZE,
                1 <= size <= 256,
                descriptors@.len() == i,
                forall|k: int| 0 <= k < i && k + 1 < size ==> (#[trigger] descriptors@[k]).next == k + 1,
            decreases MAX_QUEUE_SIZE - i,
        {
            let mut d = Descriptor::zeroed();
            if i + 1 < size as usize {
                d.next = (i + 1) as u16;
            }
            descriptors.push(d);
            i = i + 1;
        }
        let mut avail_ring: Vec<u16> = Vec::new();
        let mut used_ring: Vec<UsedElement> = Vec::new();
        let mut i: usize = 0;
        while i < MAX_QUEUE_SIZE
            invariant
                i <= MAX_QUEUE_SIZE,
                avail_ring@.len() == i,
                used_ring@.len() == i,
            decreases MAX_QUEUE_SIZE - i,
        {
            avail_ring.push(0);
            used_ring.push(UsedElement { id: 0, len: 0 });
            i = i + 1;
        }
        let ghost fl = Seq::new(size as nat, |i: int| i as u16);
        let q = VirtQueue {
            index,
            size,
            descriptors,
            available: AvailableRing { flags: 0, idx: 0, ring: avail_ring, used_event: 0 },
            used: UsedRing { flags: 0, idx: 0, ring: used_ring, avail_event: 0 },
            free_head: 0,
            num_free: size,
            last_used_idx: 0,
            pending: Vec::new(),
            free_list: Ghost(fl),
            chains: Ghost(Seq::empty()),
        };
        proof {
            assert forall|a: int, b: int| 0 <= a < fl.len() && 0 <= b < fl.len() && a != b implies fl[a] != fl[b] by {}
            assert forall|k: int| 0 <= k < fl.len() - 1 implies (#[trigger] q.descriptors@[fl[k] as int]).next == fl[k + 1] by {
                assert(fl[k] as int == k);
            }
        }
        q
    }

    /// Whether no descriptor is free.
    pub fn is_full(&self) -> (b: bool)
        ensures
            b == (self.num_free == 0),
    {
        self.num_free == 0
    }

    /// Whether requests are waiting for the device.
    pub fn has_pending(&self) -> (b: bool)
        ensures
            b == (self.pending@.len() > 0),
    {
        self.pending.len() > 0
    }

    /// Always true: the driver does not suppress notifications.
    pub fn notify_available(&self) -> (b: bool)
        ensures
            b,
    {
        true
    }

    /// Takes the first free descriptor off the free list.
    fn alloc_descriptor(&mut self) -> (r: Option<u16>)
        requires
            old(self).wf(),
        ensures
            final(self).wf(),
            old(self).num_free == 0 ==> r.is_none() && *final(self) == *old(self),
            old(self).num_free > 0 ==> {
                &&& r == Some(old(self).free_list@[0])
                &&& final(self).free_list@ == old(self).free_list@.drop_first()
                &&& final(self).num_free == old(self).num_free - 1
            },
            final(self).descriptors@ == old(self).descriptors@,
            final(self).chains@ == old(self).chains@,
            final(self).pending@ == old(self).pending@,
            final(self).size == old(self).size && final(self).index == old(self).index,
            final(self).available == old(self).available,
            final(self).used == old(self).used,
            final(self).last_used_idx == old(self).last_used_idx,
    {
        if self.num_free == 0 {
            return None;
        }
        let idx = self.free_head;
        proof {
            assert(self.free_list@[0] < self.size);
        }
        self.free_head = self.descriptors[idx as usize].next;
        self.num_free = self.num_free - 1;
        proof {
            let fl = self.free_list@;
            self.free_list@ = fl.drop_first();
            assert forall|i: int| 0 <= i < self.free_list@.len() - 1 implies
                (#[trigger] self.descriptors@[self.free_list@[i] as int]).next == self.free_list@[i + 1] by {
                assert(self.free_list@[i] == fl[i + 1]);
            }
            if self.num_free > 0 {
                assert(self.descriptors@[fl[0] as int].next == fl[1]);
            }
        }
        Some(idx)
    }

    /// Rewriting a descriptor that is neither free nor in a pending chain keeps the
    /// queue well formed.
    pub proof fn lemma_write_unowned(self, other: VirtQueue, x: int)
        requires
            self.wf(),
            0 <= x < MAX_QUEUE_SIZE,
            other.descriptors@.len() == self.descriptors@.len(),
            forall|y: int| 0 <= y < MAX_QUEUE_SIZE && y != x ==> other.descriptors@[y] == self.descriptors@[y],
            forall|q: int| 0 <= q < self.free_list@.len() ==> self.free_list@[q] != x,
            forall|j: int, k: int|
                0 <= j < self.chains@.len() && 0 <= k < self.chains@[j].len() ==> self.chains@[j][k] != x,
            other.size == self.size,
            other.available.ring@.len() == self.available.ring@.len(),
            other.used.ring@.len() == self.used.ring@.len(),
            other.free_list@ == self.free_list@,
            other.num_free == self.num_free,
            other.free_head == self.free_head,
            other.chains@ == self.chains@,
            other.pending@ == self.pending@,
        ensures
            other.wf(),
    {
        let d = self.descriptors@;
        let e = other.descriptors@;
        let fl = self.free_list@;
        let ch = self.chains@;
        assert forall|i: int| 0 <= i < fl.len() - 1 implies (#[trigger] e[fl[i] as int]).next == fl[i + 1] by {
            assert(d[fl[i] as int].next == fl[i + 1]);
        }
        assert forall|j: int| 0 <= j < ch.len() implies chain_linked(e, #[trigger] ch[j]) && ch[j][0]
            == other.pending@[j] by {
            let cj = ch[j];
            assert(chain_linked(d, cj));
            assert forall|k: int| 0 <= k < cj.len() - 1 implies (#[trigger] e[cj[k] as int]).next == cj[k + 1]
                && has_next(e[cj[k] as int].flags) by {
                assert(d[cj[k] as int].next == cj[k + 1]);
            }
            assert(cj[cj.len() - 1] != x);
        }
    }

    /// Offers a chain of buffers to the device: takes one free descriptor per
    /// buffer, in free-list order, fills each with its buffer's address, length and
    /// direction, links them with `NEXT`, puts the head in the available ring and
    /// records the request as pending. Refuses an empty list and a list longer than
    /// the free descriptors, changing nothing.
    pub fn add_buffer(&mut self, bufs: &[(u64, u32, bool)]) -> (r: Result<u16, &'static str>)
        requires
            old(self).wf(),
        ensures
            final(self).wf(),
            bufs@.len() == 0 ==> r == Err::<u16, &'static str>("Empty buffer list") && *final(self) == *old(self),
            0 < bufs@.len() && bufs@.len() > old(self).num_free ==> r == Err::<u16, &'static str>(
                "Not enough descriptors",
            ) && *final(self) == *old(self),
            0 < bufs@.len() <= old(self).num_free ==> r == Ok::<u16, &'static str>(old(self).free_list@[0]) && offered(
                *old(self),
                *final(self),
                bufs@,
            ),
            final(self).size == old(self).size && final(self).index == old(self).index,
            final(self).used == old(self).used,
            final(self).last_used_idx == old(self).last_used_idx,
            final(self).available.flags == old(self).available.flags,
            final(self).available.used_event == old(self).available.used_event,
    {
        if bufs.len() == 0 {
            return Err("Empty buffer list");
        }
        if bufs.len() > self.num_free as usize {
            return Err("Not enough descriptors");
        }
        let n = bufs.len();
        let ghost c = old(self).free_list@.take(n as int);
        let ghost fl0 = old(self).free_list@;
        let ghost d0 = old(self).descriptors@;
        let head = self.alloc_descriptor().unwrap();
        let (a0, l0, w0) = bufs[0];
        let mut d = self.descriptors[head as usize];
        d.addr = a0;
        d.len = l0;
        d.flags = if w0 { WRITE } else { 0 };
        proof {
            lemma_chain_flags(w0, false);
            assert(head == c[0]);
        }
        let ghost q1 = *self;
        self.descriptors.set(head as usize, d);
        proof {
            assert forall|q: int| 0 <= q < q1.free_list@.len() implies q1.free_list@[q] != head as int by {
                assert(q1.free_list@[q] == fl0[q + 1]);
            }
            assert forall|j: int, k: int| 0 <= j < q1.chains@.len() && 0 <= k < q1.chains@[j].len()
                implies q1.chains@[j][k] != head as int by {
                assert(fl0[0] == head);
            }
            q1.lemma_write_unowned(*self, head as int);
            assert(c.take(1)[0] == c[0]);
        }
        let mut prev = head;
        let mut i: usize = 1;
        while i < n
            invariant
                1 <= i <= n,
                n == bufs@.len(),
                n <= fl0.len(),
                fl0 == old(self).free_list@,
                d0 == old(self).descriptors@,
                old(self).wf(),
                c == fl0.take(n as int),
                fl0.no_duplicates(),
                self.wf(),
                self.free_list@ == fl0.skip(i as int),
                self.num_free == fl0.len() - i,
                prev == c[i - 1],
                head == c[0],
                self.chains@ == old(self).chains@,
                self.pending@ == old(self).pending@,
                self.size == old(self).size && self.index == old(self).index,
                self.available == old(self).available,
                self.used == old(self).used,
                self.last_used_idx == old(self).last_used_idx,
                forall|k: int| 0 <= k < i ==> desc_holds(#[trigger] self.descriptors@[c[k] as int], bufs@[k], k < i - 1),
                forall|k: int| 0 <= k < i - 1 ==> (#[trigger] self.descriptors@[c[k] as int]).next == c[k + 1],
                forall|x: int|
                    0 <= x < MAX_QUEUE_SIZE && !c.take(i as int).contains(x as u16) ==> #[trigger] self.descriptors@[x]
                        == d0[x],
            decreases n - i,
        {
            proof {
                assert(self.free_list@[0] == fl0[i as int]);
            }
            let idx = self.alloc_descriptor().unwrap();
            proof {
                assert(idx == c[i as int]);
                assert(self.free_list@ =~= fl0.skip(i + 1));
                assert(fl0[i as int] < self.size);
                assert(fl0[i - 1] < self.size);
            }
            let mut pd = self.descriptors[prev as usize];
            pd.next = idx;
            pd.flags = pd.flags | NEXT;
            proof {
                lemma_chain_flags(bufs@[i - 1].2, false);
            }
            let ghost q2 = *self;
            self.descriptors.set(prev as usize, pd);
            proof {
                assert forall|q: int| 0 <= q < q2.free_list@.len() implies q2.free_list@[q] != prev as int by {
                    assert(q2.free_list@[q] == fl0[q + i + 1]);
                }
                assert forall|j: int, k: int| 0 <= j < q2.chains@.len() && 0 <= k < q2.chains@[j].len()
                    implies q2.chains@[j][k] != prev as int by {
                    assert(fl0[i - 1] == prev);
                }
                q2.lemma_write_unowned(*self, prev as int);
            }
            let (a, l, w) = bufs[i];
            let mut nd = self.descriptors[idx as usize];
            nd.addr = a;
            nd.len = l;
            nd.flags = if w { WRITE } else { 0 };
            proof {
                lemma_chain_flags(w, false);
            }
            let ghost q3 = *self;
            self.descriptors.set(idx as usize, nd);
            proof {
                assert forall|q: int| 0 <= q < q3.free_list@.len() implies q3.free_list@[q] != idx as int by {
                    assert(q3.free_list@[q] == fl0[q + i + 1]);
                }
                assert forall|j: int, k: int| 0 <= j < q3.chains@.len() && 0 <= k < q3.chains@[j].len()
                    implies q3.chains@[j][k] != idx as int by {
                    assert(fl0[i as int] == idx);
                }
                q3.lemma_write_unowned(*self, idx as int);
            }
            proof {
                assert forall|k: int| 0 <= k < i + 1 implies desc_holds(
                    #[trigger] self.descriptors@[c[k] as int],
                    bufs@[k],
                    k < i,
                ) by {
                    if k < i {
                        assert(c[k] != c[i as int]);
                    }
                    if k < i - 1 {
                        assert(c[k] != c[i - 1]);
                    }
                }
                assert forall|k: int| 0 <= k < i implies (#[trigger] self.descriptors@[c[k] as int]).next == c[k + 1] by {
                    assert(c[k] != c[i as int]);
                    if k < i - 1 {
                        assert(c[k] != c[i - 1]);
                    }
                }
                assert forall|x: int|
                    0 <= x < MAX_QUEUE_SIZE && !c.take(i + 1).contains(x as u16) implies #[trigger] self.descriptors@[x]
                        == d0[x] by {
                    assert(c.take(i + 1)[i as int] == c[i as int]);
                    assert(c.take(i + 1)[i - 1] == c[i - 1]);
                    if c.take(i as int).contains(x as u16) {
                        let m = choose|m: int| 0 <= m < i && c.take(i as int)[m] == x as u16;
                        assert(c.take(i + 1)[m] == x as u16);
                    }
                }
            }
            prev = idx;
            i = i + 1;
        }
        let avail_idx = (self.available.idx as usize) % (self.size as usize);
        self.available.ring.set(avail_idx, head);
        self.available.idx = if self.available.idx == 0xffff { 0 } else { self.available.idx + 1 };
        self.pending.push(head);
        proof {
            assert(c.take(n as int) =~= c);
            let ch0 = old(self).chains@;
            self.chains@ = ch0.push(c);
            let ch = self.chains@;
            let fl = self.free_list@;
            let d = self.descriptors@;
            assert forall|y: u16| #[trigger] c.contains(y) implies fl0.contains(y) && !fl.contains(y) by {
                let m = choose|m: int| 0 <= m < n && c[m] == y;
                assert(fl0[m] == y);
                if fl.contains(y) {
                    let q = choose|q: int| 0 <= q < fl.len() && fl[q] == y;
                    assert(fl0[q + n] == y);
                }
            }
            assert forall|j: int, k: int| 0 <= j < ch0.len() && 0 <= k < ch0[j].len() implies !c.contains(
                #[trigger] ch0[j][k],
            ) by {
                if c.contains(ch0[j][k]) {
                    let m = choose|m: int| 0 <= m < n && c[m] == ch0[j][k];
                    assert(fl0[m] == ch0[j][k]);
                }
            }
            assert forall|j: int| 0 <= j < ch.len() implies chain_linked(d, #[trigger] ch[j]) && ch[j][0]
                == self.pending@[j] by {
                if j < ch0.len() {
                    let cj = ch0[j];
                    assert(ch[j] == cj);
                    assert forall|k: int| 0 <= k < cj.len() implies d[cj[k] as int] == d0[cj[k] as int] by {
                        assert(!c.contains(cj[k]));
                    }
                    assert(chain_linked(d0, cj));
                    assert forall|k: int| 0 <= k < cj.len() - 1 implies (#[trigger] d[cj[k] as int]).next == cj[k + 1]
                        && has_next(d[cj[k] as int].flags) by {
                        assert(d[cj[k] as int] == d0[cj[k] as int]);
                    }
                    assert(d[cj[cj.len() - 1] as int] == d0[cj[cj.len() - 1] as int]);
                } else {
                    assert(ch[j] == c);
                    assert forall|k: int| 0 <= k < c.len() - 1 implies (#[trigger] d[c[k] as int]).next == c[k + 1]
                        && has_next(d[c[k] as int].flags) by {
                        lemma_chain_flags(bufs@[k].2, true);
                    }
                    lemma_chain_flags(bufs@[n - 1].2, false);
                }
            }
            assert forall|j: int, k: int| 0 <= j < ch.len() && 0 <= k < ch[j].len() implies #[trigger] ch[j][k]
                < self.size by {
                if j == ch0.len() {
                    assert(ch[j][k] == fl0[k]);
                }
            }
            assert forall|j1: int, k1: int, j2: int, k2: int|
                0 <= j1 < ch.len() && 0 <= j2 < ch.len() && 0 <= k1 < ch[j1].len() && 0 <= k2 < ch[j2].len() && (j1
                    != j2 || k1 != k2) implies #[trigger] ch[j1][k1] != #[trigger] ch[j2][k2] by {
                if j1 == ch0.len() && j2 == ch0.len() {
                    assert(ch[j1][k1] == fl0[k1]);
                    assert(ch[j2][k2] == fl0[k2]);
                } else if j1 == ch0.len() {
                    assert(c.contains(ch[j1][k1]));
                    assert(ch[j2][k2] == ch0[j2][k2]);
                } else if j2 == ch0.len() {
                    assert(c.contains(ch[j2][k2]));
                    assert(ch[j1][k1] == ch0[j1][k1]);
                } else {
                    assert(ch[j1][k1] == ch0[j1][k1]);
                    assert(ch[j2][k2] == ch0[j2][k2]);
                }
            }
            assert forall|j: int, k: int, q: int|
                0 <= j < ch.len() && 0 <= k < ch[j].len() && 0 <= q < fl.len() implies #[trigger] ch[j][k]
                != #[trigger] fl[q] by {
                assert(fl[q] == fl0[q + n]);
                if j == ch0.len() {
                    assert(ch[j][k] == fl0[k]);
                } else {
                    assert(ch[j][k] == ch0[j][k]);
                }
            }
            assert forall|x: int|
                0 <= x < MAX_QUEUE_SIZE && !c.contains(x as u16) implies #[trigger] self.descriptors@[x]
                    == d0[x] by {
                assert(c.take(n as int) =~= c);
            }
        }
        Ok(head)
    }

    /// Returns the descriptors of the pending chain at `pos` to the free list,
    /// following the chain as its `NEXT` flags and `next` fields lead, and drops the
    /// request from `pending`.
    fn free_chain(&mut self, pos: usize)
        requires
            old(self).wf(),
            pos < old(self).pending@.len(),
        ensures
            final(self).wf(),
            final(self).pending@ == old(self).pending@.remove(pos as int),
            final(self).chains@ == old(self).chains@.remove(pos as int),
            final(self).num_free == old(self).num_free + old(self).chains@[pos as int].len(),
            forall|x: u16| #[trigger] final(self).free_list@.contains(x) <==> old(self).free_list@.contains(x)
                || old(self).chains@[pos as int].contains(x),
            final(self).size == old(self).size && final(self).index == old(self).index,
            final(self).available == old(self).available,
            final(self).used == old(self).used,
            final(self).last_used_idx == old(self).last_used_idx,
    {
        let mut head = self.pending[pos];
        let ghost c = self.chains@[pos as int];
        let ghost n = c.len() as int;
        let ghost fl0 = self.free_list@;
        let ghost d0 = self.descriptors@;
        let ghost ch0 = self.chains@;
        let ghost mut k: int = 0;
        proof {
            assert(c.take(0) =~= Seq::<u16>::empty());
            assert(chain_linked(d0, c));
        }
        let mut done = false;
        while !done
            invariant
                0 <= k <= n,
                done == (k == n),
                !done ==> head == c[k],
                old(self).wf(),
                pos < ch0.len(),
                c == ch0[pos as int],
                n == c.len(),
                fl0 == old(self).free_list@,
                d0 == old(self).descriptors@,
                ch0 == old(self).chains@,
                chain_linked(d0, c),
                self.chains@ == ch0,
                self.pending@ == old(self).pending@,
                self.size == old(self).size && self.index == old(self).index,
                self.available == old(self).available,
                self.used == old(self).used,
                self.last_used_idx == old(self).last_used_idx,
                self.descriptors@.len() == MAX_QUEUE_SIZE,
                self.free_list@.len() == self.num_free,
                self.free_list@.no_duplicates(),
                forall|i: int| 0 <= i < self.free_list@.len() ==> #[trigger] self.free_list@[i] < self.size,
                self.num_free > 0 ==> self.free_list@[0] == self.free_head,
                free_linked(self.descriptors@, self.free_list@),
                self.num_free == fl0.len() + k,
                forall|x: u16| #[trigger] self.free_list@.contains(x) <==> fl0.contains(x) || c.take(k).contains(x),
                forall|x: int|
                    0 <= x < MAX_QUEUE_SIZE && !c.take(k).contains(x as u16) ==> #[trigger] self.descriptors@[x] == d0[x],
            decreases n - k,
        {
            proof {
                assert(c[k] < self.size);
                assert(!c.take(k).contains(c[k])) by {
                    if c.take(k).contains(c[k]) {
                        let m = choose|m: int| 0 <= m < k && c.take(k)[m] == c[k];
                        assert(ch0[pos as int][m] == ch0[pos as int][k]);
                    }
                }
                assert(self.descriptors@[c[k] as int] == d0[c[k] as int]);
            }
            let desc = self.descriptors[head as usize];
            let next = desc.next;
            let has_nx = desc.flags & NEXT != 0;
            let mut nd = desc;
            nd.next = self.free_head;
            nd.flags = 0;
            let ghost fl1 = self.free_list@;
            let ghost d1 = self.descriptors@;
            self.descriptors.set(head as usize, nd);
            proof {
                let nf = seq![head] + fl1;
                assert(!fl1.contains(head)) by {
                    if fl1.contains(head) {
                        if fl0.contains(head) {
                            let q = choose|q: int| 0 <= q < fl0.len() && fl0[q] == head;
                            assert(ch0[pos as int][k] != fl0[q]);
                        }
                    }
                }
                assert(nf.no_duplicates()) by {
                    assert forall|a: int, b: int| 0 <= a < nf.len() && 0 <= b < nf.len() && a != b implies nf[a]
                        != nf[b] by {
                        if a == 0 && b > 0 {
                            assert(nf[b] == fl1[b - 1]);
                        } else if b == 0 && a > 0 {
                            assert(nf[a] == fl1[a - 1]);
                        } else if a > 0 && b > 0 {
                            assert(nf[a] == fl1[a - 1]);
                            assert(nf[b] == fl1[b - 1]);
                        }
                    }
                }
                assert forall|i: int| 0 <= i < nf.len() implies nf[i] < self.size by {
                    if i > 0 {
                        assert(nf[i] == fl1[i - 1]);
                    }
                }
                lemma_distinct_below(nf, self.size as int);
                assert forall|i: int| 0 <= i < fl1.len() implies fl1[i] != head by {
                    assert(fl1.contains(fl1[i]));
                }
            }
            self.free_head = head;
            self.num_free = self.num_free + 1;
            proof {
                let nf = seq![head] + fl1;
                self.free_list@ = nf;
                let d = self.descriptors@;
                assert forall|i: int| 0 <= i < nf.len() - 1 implies (#[trigger] d[nf[i] as int]).next == nf[i + 1] by {
                    if i == 0 {
                        assert(nf[1] == fl1[0]);
                    } else {
                        assert(nf[i] == fl1[i - 1]);
                        assert(nf[i + 1] == fl1[i]);
                        assert(d1[fl1[i - 1] as int].next == fl1[i]);
                    }
                }
                lemma_chain_flags(false, false);
                if k < n - 1 {
                    assert(has_next(d0[c[k] as int].flags));
                    assert(d0[c[k] as int].next == c[k + 1]);
                }
                assert(has_nx == has_next(d0[c[k] as int].flags));
                let k1 = k + 1;
                assert forall|x: u16| #[trigger] nf.contains(x) <==> fl0.contains(x) || c.take(k1).contains(x) by {
                    if nf.contains(x) {
                        let q = choose|q: int| 0 <= q < nf.len() && nf[q] == x;
                        if q > 0 {
                            assert(fl1[q - 1] == x);
                            assert(fl1.contains(x));
                            if c.take(k).contains(x) {
                                let m = choose|m: int| 0 <= m < k && c.take(k)[m] == x;
                                assert(c.take(k1)[m] == x);
                            }
                        } else {
                            assert(c.take(k1)[k] == x);
                        }
                    }
                    if c.take(k1).contains(x) {
                        let m = choose|m: int| 0 <= m < k1 && c.take(k1)[m] == x;
                        if m < k {
                            assert(c.take(k)[m] == x);
                            assert(fl1.contains(x));
                            let q = choose|q: int| 0 <= q < fl1.len() && fl1[q] == x;
                            assert(nf[q + 1] == x);
                        } else {
                            assert(nf[0] == x);
                        }
                    }
                    if fl0.contains(x) {
                        assert(fl1.contains(x));
                        let q = choose|q: int| 0 <= q < fl1.len() && fl1[q] == x;
                        assert(nf[q + 1] == x);
                    }
                }
                assert forall|x: int|
                    0 <= x < MAX_QUEUE_SIZE && !c.take(k1).contains(x as u16) implies #[trigger] d[x] == d0[x] by {
                    assert(c.take(k1)[k] == c[k]);
                    if c.take(k).contains(x as u16) {
                        let m = choose|m: int| 0 <= m < k && c.take(k)[m] == x as u16;
                        assert(c.take(k1)[m] == x as u16);
                    }
                }
                k = k1;
            }
            if !has_nx {
                done = true;
            } else {
                head = next;
            }
        }
        self.pending.remove(pos);
        proof {
            assert(c.take(n) =~= c);
            let ch = ch0.remove(pos as int);
            self.chains@ = ch;
            let d = self.descriptors@;
            let fl = self.free_list@;
            assert forall|j: int| 0 <= j < ch.len() implies chain_linked(d, #[trigger] ch[j]) && ch[j][0]
                == self.pending@[j] by {
                let j0 = if j < pos { j } else { j + 1 };
                assert(ch[j] == ch0[j0]);
                let cj = ch0[j0];
                assert(chain_linked(d0, cj));
                assert forall|m: int| 0 <= m < cj.len() implies d[cj[m] as int] == d0[cj[m] as int] by {
                    if c.contains(cj[m]) {
                        let z = choose|z: int| 0 <= z < n && c[z] == cj[m];
                        assert(ch0[pos as int][z] != ch0[j0][m]);
                    }
                }
                assert forall|m: int| 0 <= m < cj.len() - 1 implies (#[trigger] d[cj[m] as int]).next == cj[m + 1]
                    && has_next(d[cj[m] as int].flags) by {
                    assert(d[cj[m] as int] == d0[cj[m] as int]);
                }
                assert(d[cj[cj.len() - 1] as int] == d0[cj[cj.len() - 1] as int]);
            }
            assert forall|j: int, m: int| 0 <= j < ch.len() && 0 <= m < ch[j].len() implies #[trigger] ch[j][m]
                < self.size by {
                let j0 = if j < pos { j } else { j + 1 };
                assert(ch[j][m] == ch0[j0][m]);
            }
            assert forall|j1: int, k1: int, j2: int, k2: int|
                0 <= j1 < ch.len() && 0 <= j2 < ch.len() && 0 <= k1 < ch[j1].len() && 0 <= k2 < ch[j2].len() && (j1
                    != j2 || k1 != k2) implies #[trigger] ch[j1][k1] != #[trigger] ch[j2][k2] by {
                let a = if j1 < pos { j1 } else { j1 + 1 };
                let b = if j2 < pos { j2 } else { j2 + 1 };
                assert(ch[j1][k1] == ch0[a][k1]);
                assert(ch[j2][k2] == ch0[b][k2]);
            }
            assert forall|j: int, m: int, q: int|
                0 <= j < ch.len() && 0 <= m < ch[j].len() && 0 <= q < fl.len() implies #[trigger] ch[j][m]
                != #[trigger] fl[q] by {
                let j0 = if j < pos { j } else { j + 1 };
                assert(ch[j][m] == ch0[j0][m]);
                assert(fl.contains(fl[q]));
                if fl0.contains(fl[q]) {
                    let z = choose|z: int| 0 <= z < fl0.len() && fl0[z] == fl[q];
                    assert(ch0[j0][m] != fl0[z]);
                } else {
                    assert(c.take(n).contains(fl[q]));
                    let z = choose|z: int| 0 <= z < n && c.take(n)[z] == fl[q];
                    assert(ch0[pos as int][z] != ch0[j0][m]);
                }
            }
        }
    }

    /// The device's side of the used ring: it writes an entry for the chain with
    /// head `id`, `len` bytes written, and advances its index.
    pub fn record_used(&mut self, id: u32, len: u32)
        requires
            old(self).wf(),
        ensures
            final(self).wf(),
            final(self).used.ring@ == old(self).used.ring@.update(
                (old(self).used.idx % old(self).size) as int,
                UsedElement { id, len },
            ),
            final(self).used.idx == next_index(old(self).used.idx),
            final(self).used.flags == old(self).used.flags,
            final(self).used.avail_event == old(self).used.avail_event,
            final(self).descriptors@ == old(self).descriptors@,
            final(self).available == old(self).available,
            final(self).free_list@ == old(self).free_list@,
            final(self).num_free == old(self).num_free,
            final(self).free_head == old(self).free_head,
            final(self).chains@ == old(self).chains@,
            final(self).pending@ == old(self).pending@,
            final(self).last_used_idx == old(self).last_used_idx,
            final(self).size == old(self).size && final(self).index == old(self).index,
    {
        let slot = (self.used.idx as usize) % (self.size as usize);
        self.used.ring.set(slot, UsedElement { id, len });
        self.used.idx = if self.used.idx == 0xffff { 0 } else { self.used.idx + 1 };
    }

    /// Takes the next entry of the used ring, if the device wrote one: reports its
    /// head (the low 16 bits of its id) and length, and, when that head is pending,
    /// drops the first such request and frees its chain.
    pub fn poll_used(&mut self) -> (r: Option<(u16, u32)>)
        requires
            old(self).wf(),
        ensures
            final(self).wf(),
            old(self).last_used_idx == old(self).used.idx ==> r.is_none() && *final(self) == *old(self),
            old(self).last_used_idx != old(self).used.idx ==> {
                let e = old(self).used.ring@[(old(self).last_used_idx % old(self).size) as int];
                let id = e.id as u16;
                &&& r == Some((id, e.len))
                &&& final(self).last_used_idx == next_index(old(self).last_used_idx)
                &&& old(self).pending@.contains(id) ==> {
                    let p = first_pos(old(self).pending@, id);
                    &&& final(self).pending@ == old(self).pending@.remove(p)
                    &&& final(self).chains@ == old(self).chains@.remove(p)
                    &&& final(self).num_free == old(self).num_free + old(self).chains@[p].len()
                }
                &&& !old(self).pending@.contains(id) ==> {
                    &&& final(self).pending@ == old(self).pending@
                    &&& final(self).free_list@ == old(self).free_list@
                    &&& final(self).num_free == old(self).num_free
                }
            },
            final(self).used == old(self).used,
            final(self).available == old(self).available,
            final(self).size == old(self).size && final(self).index == old(self).index,
    {
        if self.last_used_idx == self.used.idx {
            return None;
        }
        let slot = (self.last_used_idx as usize) % (self.size as usize);
        let elem = self.used.ring[slot];
        self.last_used_idx = if self.last_used_idx == 0xffff { 0 } else { self.last_used_idx + 1 };
        let id = elem.id as u16;
        let mut i: usize = 0;
        while i < self.pending.len() && self.pending[i] != id
            invariant
                i <= self.pending@.len(),
                forall|q: int| 0 <= q < i ==> self.pending@[q] != id,
            decreases self.pending@.len() - i,
        {
            i = i + 1;
        }
        if i < self.pending.len() {
            proof {
                let p = first_pos(self.pending@, id);
                assert(0 <= i < self.pending@.len() && self.pending@[i as int] == id && forall|q: int|
                    0 <= q < i ==> self.pending@[q] != id);
                assert(p == i as int);
            }
            self.free_chain(i);
        } else {
            proof {
                assert(!self.pending@.contains(id));
            }
        }
        Some((id, elem.len))
    }
}

} // verus!
