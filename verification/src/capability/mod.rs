//! Capability-based security: unforgeable references to kernel objects with rights,
//! per-thread capability spaces, granting, revocation and validation.
use vstd::prelude::*;
use std::collections::BTreeMap;
use crate::ipc::ThreadId;
use vstd::std_specs::iter::IteratorSpec;

verus! {

broadcast use vstd::std_specs::btree::group_btree_axioms;

/// Capability pointer (index into capability space)
#[derive(Debug, Clone, Copy, PartialEq, Eq, Structural)]
pub struct CPtr(pub u64);

/// Capability identifier (globally unique)
#[derive(Debug, Clone, Copy, PartialEq, Eq, Structural)]
pub struct CapId(pub u64);

/// Rights associated with a capability (a set of bits).
#[derive(Debug, Clone, Copy, PartialEq, Eq, Structural)]
pub struct CapRights {
    pub bits: u32,
}

/// Can read from the object
pub const RIGHT_READ: u32 = 1 << 0;
/// Can write to the object
pub const RIGHT_WRITE: u32 = 1 << 1;
/// Can execute (for code/endpoints)
pub const RIGHT_EXECUTE: u32 = 1 << 2;
/// Can grant capability to others
pub const RIGHT_GRANT: u32 = 1 << 3;
/// Can revoke granted capabilities
pub const RIGHT_REVOKE: u32 = 1 << 4;
/// Full rights
pub const RIGHT_ALL: u32 = 0b11111;

impl CapRights {
    /// Rights made of the given bits.
    pub fn from_bits(bits: u32) -> (r: CapRights)
        ensures
            r.bits == bits,
    {
        CapRights { bits }
    }

    /// No rights.
    pub fn empty() -> (r: CapRights)
        ensures
            r.bits == 0,
    {
        CapRights { bits: 0 }
    }

    /// Every right.
    pub fn all() -> (r: CapRights)
        ensures
            r.bits == RIGHT_ALL,
    {
        CapRights { bits: RIGHT_ALL }
    }

    /// Both sets of rights together.
    pub fn union(self, other: CapRights) -> (r: CapRights)
        ensures
            r.bits == self.bits | other.bits,
    {
        CapRights { bits: self.bits | other.bits }
    }

    /// Whether every right of `other` is in `self`.
    pub open spec fn spec_contains(self, other: CapRights) -> bool {
        self.bits & other.bits == other.bits
    }

    /// Whether every right of `other` is in `self`.
    pub fn contains(&self, other: CapRights) -> (b: bool)
        ensures
            b == self.spec_contains(other),
    {
        self.bits & other.bits == other.bits
    }
}

/// Facts of 32-bit sets used by the laws on rights.
proof fn lemma_bit_sets()
    by (bit_vector)
    ensures
        forall|x: u32, y: u32| #[trigger] (x & y) == y <==> y & !x == 0,
        forall|x: u32, i: u32| i < 32 ==> ((#[trigger] (x & (1u32 << i)) == (1u32 << i)) <==> ((x >> i) & 1 == 1)),
        forall|x: u32, y: u32, i: u32| i < 32 && #[trigger] (x & y) == y && (y >> i) & 1 == 1 ==> #[trigger] ((x >> i) & 1) == 1,
        forall|x: u32, m: u32| m == 1 || m == 2 || m == 4 || m == 8 || m == 16 ==> ((#[trigger] (x & m) == m) <==> (x & m != 0)),
        forall|x: u32| #[trigger] (x & 0) == 0,
        1u32 << 0u32 == 1 && 1u32 << 1u32 == 2 && 1u32 << 2u32 == 4 && 1u32 << 3u32 == 8 && 1u32 << 4u32 == 16,
{
}

/// Rights are sets of bits and containment is the subset relation: `a` contains `b`
/// exactly when `b` has no bit that `a` lacks; a single right `1 << i` is contained
/// exactly when bit `i` of `a` is set.
pub proof fn law_rights_subset(a: CapRights, b: CapRights, i: u32)
    requires
        i < 32,
    ensures
        a.spec_contains(b) <==> b.bits & !a.bits == 0,
        a.spec_contains(CapRights { bits: 1u32 << i }) <==> (a.bits >> i) & 1 == 1,
        a.spec_contains(b) && (b.bits >> i) & 1 == 1 ==> (a.bits >> i) & 1 == 1,
{
    lemma_bit_sets();
    assert((a.bits & b.bits) == b.bits <==> b.bits & !a.bits == 0);
    assert((a.bits & (1u32 << i)) == (1u32 << i) <==> (a.bits >> i) & 1 == 1);
    if a.spec_contains(b) && (b.bits >> i) & 1 == 1 {
        assert(((a.bits >> i) & 1) == 1);
    }
}

/// Each named right is contained in a set exactly when the set has its bit: read,
/// write, execute, grant and revoke are five distinct rights, and the empty set is
/// in every set.
pub proof fn law_named_rights(a: CapRights)
    ensures
        a.spec_contains(CapRights { bits: RIGHT_READ }) <==> a.bits & 1 != 0,
        a.spec_contains(CapRights { bits: RIGHT_WRITE }) <==> a.bits & 2 != 0,
        a.spec_contains(CapRights { bits: RIGHT_EXECUTE }) <==> a.bits & 4 != 0,
        a.spec_contains(CapRights { bits: RIGHT_GRANT }) <==> a.bits & 8 != 0,
        a.spec_contains(CapRights { bits: RIGHT_REVOKE }) <==> a.bits & 16 != 0,
        a.spec_contains(CapRights { bits: 0 }),
{
    lemma_bit_sets();
    let x = a.bits;
    assert((x & 1) == 1 <==> x & 1 != 0);
    assert((x & 2) == 2 <==> x & 2 != 0);
    assert((x & 4) == 4 <==> x & 4 != 0);
    assert((x & 8) == 8 <==> x & 8 != 0);
    assert((x & 16) == 16 <==> x & 16 != 0);
    assert((x & 0) == 0);
}

/// Type of kernel object a capability references
#[derive(Debug, Clone, Copy, PartialEq, Eq, Structural)]
pub enum CapType {
    /// Null capability (invalid)
    Null,
    /// Memory frame
    Frame,
    /// Page table
    PageTable,
    /// IPC endpoint
    Endpoint,
    /// Thread
    Thread,
    /// IRQ handler
    Irq,
    /// I/O port range
    IoPort,
    /// MMIO region
    Mmio,
}

/// A capability entry
#[derive(Debug, Clone, Copy, PartialEq, Eq, Structural)]
pub struct Capability {
    /// Unique identifier
    pub id: CapId,
    /// Type of object
    pub cap_type: CapType,
    /// Rights mask
    pub rights: CapRights,
    /// Object-specific data (address, ID, etc.)
    pub object: u64,
    /// Parent capability (for revocation tree)
    pub parent: Option<CapId>,
    /// Number of derived capabilities
    pub derived_count: u32,
}

/// The rights bit for granting, as a set of rights.
pub open spec fn grant_right() -> CapRights {
    CapRights { bits: RIGHT_GRANT }
}

/// The source of capability ids: each id it hands out is the next number, so
/// every id comes out larger than all those handed out before it.
pub struct CapIdAllocator {
    pub next: u64,
}

impl CapIdAllocator {
    /// Ids start at 1.
    pub fn new() -> (a: CapIdAllocator)
        ensures
            a.next == 1,
    {
        CapIdAllocator { next: 1 }
    }

    /// The next id.
    pub fn next_id(&mut self) -> (id: CapId)
        requires
            old(self).next < u64::MAX,
        ensures
            id.0 == old(self).next,
            final(self).next == old(self).next + 1,
    {
        let id = CapId(self.next);
        self.next = self.next + 1;
        id
    }
}

/// Ids handed out one after another differ: an id taken when the counter stood
/// at `earlier` is below the counter, and so below any id taken later.
pub proof fn law_ids_fresh(earlier: CapIdAllocator, first: CapId, later: CapIdAllocator, second: CapId)
    requires
        first.0 < earlier.next,
        earlier.next <= later.next,
        second.0 == later.next,
    ensures
        first != second,
        first.0 < second.0,
{
}

impl Capability {
    /// Create a new root capability with the next id.
    pub fn new(ids: &mut CapIdAllocator, cap_type: CapType, rights: CapRights, object: u64) -> (c: Capability)
        requires
            old(ids).next < u64::MAX,
        ensures
            c == (Capability { id: CapId(old(ids).next), cap_type, rights, object, parent: None, derived_count: 0 }),
            final(ids).next == old(ids).next + 1,
    {
        let id = ids.next_id();
        Capability { id, cap_type, rights, object, parent: None, derived_count: 0 }
    }

    /// Check if capability has specific rights
    pub fn has_rights(&self, required: CapRights) -> (b: bool)
        ensures
            b == self.rights.spec_contains(required),
    {
        self.rights.contains(required)
    }

    /// Derive a new capability with reduced rights and the next id. Refused (no id
    /// taken) unless `new_rights` is within this capability's rights and this
    /// capability carries the grant right.
    pub fn derive(&self, ids: &mut CapIdAllocator, new_rights: CapRights) -> (r: Option<Capability>)
        requires
            old(ids).next < u64::MAX,
        ensures
            r is Some <==> self.rights.spec_contains(new_rights) && self.rights.spec_contains(grant_right()),
            r is Some ==> final(ids).next == old(ids).next + 1,
            r is None ==> final(ids).next == old(ids).next,
            r matches Some(c) ==> c == (Capability {
                id: CapId(old(ids).next),
                cap_type: self.cap_type,
                rights: new_rights,
                object: self.object,
                parent: Some(self.id),
                derived_count: 0,
            }),
            r is Some && self.id.0 < old(ids).next ==> r->0.id != self.id && self.id.0 < r->0.id.0,
    {
        if !self.rights.contains(new_rights) {
            return None;
        }
        if !self.has_rights(CapRights { bits: RIGHT_GRANT }) {
            return None;
        }
        let new_id = ids.next_id();
        Some(Capability {
            id: new_id,
            cap_type: self.cap_type,
            rights: new_rights,
            object: self.object,
            parent: Some(self.id),
            derived_count: 0,
        })
    }
}

/// Rights only ever shrink along a derivation: whatever a derived capability allows,
/// its parent allows too.
pub proof fn law_derived_rights_within_parent(parent: CapRights, child: CapRights, asked: CapRights)
    requires
        parent.spec_contains(child),
        child.spec_contains(asked),
    ensures
        parent.spec_contains(asked),
{
    let (p, c, a) = (parent.bits, child.bits, asked.bits);
    assert(p & c == c && c & a == a ==> p & a == a) by (bit_vector);
}

/// Capability Space for a thread
#[derive(Debug)]
pub struct CSpace {
    /// Thread that owns this CSpace
    pub owner: ThreadId,
    /// Capability slots (slot number -> Capability)
    pub slots: BTreeMap<u64, Capability>,
    /// Next available slot
    pub next_slot: u64,
}

impl CSpace {
    pub closed spec fn slots(&self) -> Map<u64, Capability> {
        self.slots@
    }

    pub closed spec fn next_slot(&self) -> u64 {
        self.next_slot
    }

    /// Slot 0 stays null and slots are handed out in order: the next slot is at
    /// least 1 and above every slot in use.
    pub open spec fn wf(&self) -> bool {
        &&& self.next_slot() >= 1
        &&& forall|k: u64| #[trigger] self.slots().contains_key(k) ==> 1 <= k < self.next_slot()
    }

    /// Create a new empty capability space (slot 0 stays reserved for null)
    pub fn new(owner: ThreadId) -> (c: CSpace)
        ensures
            c.owner == owner,
            c.slots() == Map::<u64, Capability>::empty(),
            c.next_slot() == 1,
            c.wf(),
    {
        CSpace { owner, slots: BTreeMap::new(), next_slot: 1 }
    }

    /// Insert a capability in the next free slot and return its pointer
    pub fn insert(&mut self, cap: Capability) -> (p: CPtr)
        requires
            old(self).next_slot() < u64::MAX,
        ensures
            p == CPtr(old(self).next_slot()),
            final(self).next_slot() == old(self).next_slot() + 1,
            final(self).slots() == old(self).slots().insert(p.0, cap),
            final(self).owner == old(self).owner,
            old(self).wf() ==> final(self).wf() && p.0 >= 1 && !old(self).slots().contains_key(p.0),
    {
        let ptr = CPtr(self.next_slot);
        self.next_slot = self.next_slot + 1;
        self.slots.insert(ptr.0, cap);
        ptr
    }

    /// Look up a capability by pointer
    pub fn get(&self, ptr: CPtr) -> (r: Option<&Capability>)
        ensures
            match r {
                Some(c) => self.slots().contains_key(ptr.0) && *c == self.slots()[ptr.0],
                None => !self.slots().contains_key(ptr.0),
            },
    {
        self.slots.get(&ptr.0)
    }

    /// Remove a capability
    pub fn remove(&mut self, ptr: CPtr) -> (r: Option<Capability>)
        ensures
            final(self).slots() == old(self).slots().remove(ptr.0),
            final(self).next_slot() == old(self).next_slot(),
            final(self).owner == old(self).owner,
            old(self).wf() ==> final(self).wf(),
            match r {
                Some(c) => old(self).slots().contains_key(ptr.0) && c == old(self).slots()[ptr.0],
                None => !old(self).slots().contains_key(ptr.0),
            },
    {
        self.slots.remove(&ptr.0)
    }

    /// Check if a capability with given rights exists
    pub fn has_cap(&self, ptr: CPtr, required_rights: CapRights) -> (b: bool)
        ensures
            b == (self.slots().contains_key(ptr.0) && self.slots()[ptr.0].rights.spec_contains(required_rights)),
    {
        match self.get(ptr) {
            Some(cap) => cap.has_rights(required_rights),
            None => false,
        }
    }
}

/// Slots are never handed out twice: in a well-formed space, whatever was
/// removed in between, a later insert returns a pointer above an earlier one.
pub proof fn law_slots_not_reused(first: CPtr, between: CSpace, second: CPtr)
    requires
        between.wf(),
        first.0 < between.next_slot(),
        second.0 == between.next_slot(),
    ensures
        second.0 > first.0,
        !between.slots().contains_key(second.0),
{
}

/// Per-thread capability spaces and the global registry of capabilities.
pub struct CapabilityTables {
    /// Capability spaces, by thread number
    pub cspaces: BTreeMap<u64, CSpace>,
    /// Registered capabilities (for revocation tracking), by capability number
    pub capabilities: BTreeMap<u64, CapType>,
}

impl CapabilityTables {
    pub closed spec fn cspaces(&self) -> Map<u64, CSpace> {
        self.cspaces@
    }

    pub closed spec fn registry(&self) -> Map<u64, CapType> {
        self.capabilities@
    }

    /// No capability spaces, nothing registered.
    pub fn new() -> (t: CapabilityTables)
        ensures
            t.cspaces() == Map::<u64, CSpace>::empty(),
            t.registry() == Map::<u64, CapType>::empty(),
    {
        CapabilityTables { cspaces: BTreeMap::new(), capabilities: BTreeMap::new() }
    }
}

/// Whether thread `tid` holds, at `ptr`, a capability of type `t` with at least `rights`.
pub open spec fn validate_spec(cspaces: Map<u64, CSpace>, tid: ThreadId, ptr: CPtr, t: CapType, rights: CapRights) -> bool {
    &&& cspaces.contains_key(tid.0)
    &&& cspaces[tid.0].slots().contains_key(ptr.0)
    &&& cspaces[tid.0].slots()[ptr.0].cap_type == t
    &&& cspaces[tid.0].slots()[ptr.0].rights.spec_contains(rights)
}

/// Create (or reset) the capability space of a thread
pub fn create_cspace(tables: &mut CapabilityTables, tid: ThreadId)
    ensures
        final(tables).cspaces().contains_key(tid.0),
        final(tables).cspaces()[tid.0].owner == tid,
        final(tables).cspaces()[tid.0].slots() == Map::<u64, Capability>::empty(),
        final(tables).cspaces()[tid.0].next_slot() == 1,
        forall|t: u64| t != tid.0 ==> #[trigger] final(tables).cspaces().contains_key(t) == old(tables).cspaces().contains_key(t)
            && (old(tables).cspaces().contains_key(t) ==> final(tables).cspaces()[t] == old(tables).cspaces()[t]),
        final(tables).registry() == old(tables).registry(),
{
    tables.cspaces.insert(tid.0, CSpace::new(tid));
}

/// Destroy a thread's capability space
pub fn destroy_cspace(tables: &mut CapabilityTables, tid: ThreadId)
    ensures
        final(tables).cspaces() == old(tables).cspaces().remove(tid.0),
        final(tables).registry() == old(tables).registry(),
{
    tables.cspaces.remove(&tid.0);
}

/// Grant a capability to a thread: registers it and stores it in the thread's next slot.
/// `None` when the thread has no capability space.
pub fn grant(tables: &mut CapabilityTables, tid: ThreadId, cap: Capability) -> (r: Option<CPtr>)
    requires
        old(tables).cspaces().contains_key(tid.0) ==> old(tables).cspaces()[tid.0].next_slot() < u64::MAX,
    ensures
        !old(tables).cspaces().contains_key(tid.0) ==> r is None && final(tables).cspaces() == old(tables).cspaces()
            && final(tables).registry() == old(tables).registry(),
        old(tables).cspaces().contains_key(tid.0) ==> ({
            let cs = old(tables).cspaces()[tid.0];
            &&& r == Some(CPtr(cs.next_slot()))
            &&& final(tables).registry() == old(tables).registry().insert(cap.id.0, cap.cap_type)
            &&& final(tables).cspaces().contains_key(tid.0)
            &&& final(tables).cspaces()[tid.0].slots() == cs.slots().insert(cs.next_slot(), cap)
            &&& final(tables).cspaces()[tid.0].next_slot() == cs.next_slot() + 1
            &&& final(tables).cspaces()[tid.0].owner == cs.owner
            &&& forall|t: u64| t != tid.0 ==> #[trigger] final(tables).cspaces().contains_key(t) == old(tables).cspaces().contains_key(t)
                && (old(tables).cspaces().contains_key(t) ==> final(tables).cspaces()[t] == old(tables).cspaces()[t])
        }),
{
    let mut cspace = match tables.cspaces.remove(&tid.0) {
        Some(c) => c,
        None => {
            assert(tables.cspaces@ =~= old(tables).cspaces@);
            return None;
        },
    };
    tables.capabilities.insert(cap.id.0, cap.cap_type);
    let ptr = cspace.insert(cap);
    tables.cspaces.insert(tid.0, cspace);
    Some(ptr)
}

/// Whether capability `c` derives from the capability with id `root` along
/// capabilities held in `cspaces`: its parent is `root`, or its parent is a held
/// capability that does so, within `n` more steps.
pub open spec fn descends(cspaces: Map<u64, CSpace>, c: Capability, root: u64, n: nat) -> bool
    decreases n,
{
    match c.parent {
        None => false,
        Some(p) => p.0 == root || (n > 0 && exists|t: u64, s: u64|
            #![trigger cspaces[t].slots()[s]]
            cspaces.contains_key(t) && cspaces[t].slots().contains_key(s) && cspaces[t].slots()[s].id == p && descends(
                cspaces,
                cspaces[t].slots()[s],
                root,
                (n - 1) as nat,
            )),
    }
}

/// Whether `c` derives, in any number of steps, from the capability with id `root`.
pub open spec fn derived_from(cspaces: Map<u64, CSpace>, c: Capability, root: u64) -> bool {
    exists|n: nat| #[trigger] descends(cspaces, c, root, n)
}

/// What revoking slot `ptr` of thread `tid` leaves of the capability spaces
/// `before`: the same threads, owners and next slots; that slot gone; every other
/// capability gone exactly when it derives from the revoked one; the registry
/// without the ids of the capabilities gone.
pub open spec fn revoked(
    before: Map<u64, CSpace>,
    after: Map<u64, CSpace>,
    reg_before: Map<u64, CapType>,
    reg_after: Map<u64, CapType>,
    tid: ThreadId,
    ptr: CPtr,
) -> bool {
    let rid = before[tid.0].slots()[ptr.0].id.0;
    &&& after.dom() == before.dom()
    &&& forall|t: u64|
        #[trigger] after.contains_key(t) ==> after[t].owner == before[t].owner && after[t].next_slot()
            == before[t].next_slot()
    &&& !after[tid.0].slots().contains_key(ptr.0)
    &&& forall|t: u64, s: u64|
        #[trigger] held(after, t, s) ==> before[t].slots().contains_key(s)
            && after[t].slots()[s] == before[t].slots()[s] && !derived_from(before, before[t].slots()[s], rid)
    &&& forall|t: u64, s: u64|
        #[trigger] held(before, t, s) && !(t == tid.0 && s == ptr.0) && !after[t].slots().contains_key(s) ==> derived_from(
            before,
            before[t].slots()[s],
            rid,
        )
    &&& forall|k: u64|
        #[trigger] reg_after.contains_key(k) ==> reg_before.contains_key(k) && reg_after[k] == reg_before[k]
    &&& !reg_after.contains_key(rid)
    &&& forall|t: u64, s: u64|
        #[trigger] held(before, t, s) && !after[t].slots().contains_key(s) ==> !reg_after.contains_key(
            before[t].slots()[s].id.0,
        )
}

/// Revoke a capability and all capabilities derived from it: the slot is
/// emptied, then, round after round, every capability in any thread's space whose
/// parent is the revoked one or one already removed is removed too, until a round
/// removes nothing; each removed capability leaves the registry. Returns whether
/// the slot held one.
pub fn revoke(tables: &mut CapabilityTables, tid: ThreadId, ptr: CPtr) -> (b: bool)
    ensures
        b == (old(tables).cspaces().contains_key(tid.0) && old(tables).cspaces()[tid.0].slots().contains_key(ptr.0)),
        !b ==> final(tables).cspaces() == old(tables).cspaces() && final(tables).registry() == old(tables).registry(),
        b ==> revoked(
            old(tables).cspaces(),
            final(tables).cspaces(),
            old(tables).registry(),
            final(tables).registry(),
            tid,
            ptr,
        ),
{
    let present = match tables.cspaces.get(&tid.0) {
        Some(cs) => cs.get(ptr).is_some(),
        None => false,
    };
    if !present {
        return false;
    }
    let ghost before = tables.cspaces();
    let ghost reg0 = tables.registry();
    let mut cspace = tables.cspaces.remove(&tid.0).unwrap();
    let cap = cspace.remove(ptr).unwrap();
    tables.capabilities.remove(&cap.id.0);
    tables.cspaces.insert(tid.0, cspace);
    let ghost rid = cap.id.0;
    let entries = slot_list(tables);
    proof {
        let cur = tables.cspaces();
        assert(cur == before.insert(tid.0, cur[tid.0]));
        assert(cur[tid.0].slots() == before[tid.0].slots().remove(ptr.0));
        assert forall|t: u64, s: u64|
            #[trigger] held(before, t, s) && !(t == tid.0 && s == ptr.0) implies entries@.contains((t, s)) by {
            assert(cur.contains_key(t) && cur[t].slots().contains_key(s));
            assert(held(cur, t, s));
        }
        assert forall|e: int| 0 <= e < entries@.len() implies before.contains_key((#[trigger] entries@[e]).0)
            && before[entries@[e].0].slots().contains_key(entries@[e].1) && !(entries@[e].0 == tid.0 && entries@[e].1
            == ptr.0) by {
            assert(held(cur, entries@[e].0, entries@[e].1));
        }
        assert forall|t: u64, s: u64| #[trigger] held(cur, t, s) implies before[t].slots().contains_key(s)
            && cur[t].slots()[s] == before[t].slots()[s] by {}
        assert(tables.registry() == reg0.remove(rid));
    }
    let n = entries.len();
    let mut removed: Vec<bool> = Vec::new();
    while removed.len() < n
        invariant
            removed@.len() <= n,
            forall|e: int| 0 <= e < removed@.len() ==> !removed@[e],
        decreases n - removed@.len(),
    {
        removed.push(false);
    }
    let mut gone: Vec<u64> = Vec::new();
    gone.push(cap.id.0);
    let mut done = false;
    while !done
        invariant
            removed@.len() == n,
            n == entries@.len(),
            gone@.len() >= 1,
            gone@[0] == rid,
            rid == before[tid.0].slots()[ptr.0].id.0,
            before.contains_key(tid.0) && before[tid.0].slots().contains_key(ptr.0),
            sweep_inv(before, tables.cspaces(), reg0, tables.registry(), tid, ptr, entries@, removed@, gone@),
            done ==> forall|e: int| 0 <= e < n && !removed@[e] ==> parent_kept(tables.cspaces(), entries@[e], gone@),
        decreases n - count_true(removed@), (if done { 0int } else { 1int }),
    {
        let ghost count0 = count_true(removed@);
        let mut changed = false;
        let mut e: usize = 0;
        while e < n
            invariant
                removed@.len() == n,
                n == entries@.len(),
                e <= n,
                gone@.len() >= 1,
                gone@[0] == rid,
                rid == before[tid.0].slots()[ptr.0].id.0,
                before.contains_key(tid.0) && before[tid.0].slots().contains_key(ptr.0),
                sweep_inv(before, tables.cspaces(), reg0, tables.registry(), tid, ptr, entries@, removed@, gone@),
                changed ==> count_true(removed@) > count0,
                !changed ==> count_true(removed@) == count0,
                !changed ==> forall|f: int| 0 <= f < e && !removed@[f] ==> parent_kept(tables.cspaces(), entries@[f], gone@),
            decreases n - e,
        {
            if !removed[e] {
                let (t, s) = entries[e];
                let parent = match tables.cspaces.get(&t) {
                    Some(cs) => match cs.get(CPtr(s)) {
                        Some(c) => c.parent,
                        None => None,
                    },
                    None => None,
                };
                let hit = match parent {
                    Some(p) => contains_id(&gone, p.0),
                    None => false,
                };
                if hit {
                    let ghost prev_removed = removed@;
                    let ghost prev_gone = gone@;
                    let ghost prev_cur = tables.cspaces();
                    let ghost prev_reg = tables.registry();
                    proof {
                        assert(held(prev_cur, t, s));
                        assert(entries@.contains((t, s)));
                    }
                    let mut cs = tables.cspaces.remove(&t).unwrap();
                    let c = cs.remove(CPtr(s)).unwrap();
                    tables.capabilities.remove(&c.id.0);
                    tables.cspaces.insert(t, cs);
                    gone.push(c.id.0);
                    removed.set(e, true);
                    proof {
                        lemma_count_true_set(prev_removed, e as int);
                        let pid = parent.unwrap().0;
                        let k = choose|k: int| 0 <= k < prev_gone.len() && prev_gone[k] == pid;
                        if prev_gone[k] == rid {
                            assert(descends(before, c, rid, 0));
                        } else {
                            let (t2, s2) = choose|t2: u64, s2: u64|
                                #![trigger before[t2].slots()[s2]]
                                before.contains_key(t2) && before[t2].slots().contains_key(s2) && !(t2 == tid.0 && s2
                                    == ptr.0) && derived_from(before, before[t2].slots()[s2], rid)
                                    && before[t2].slots()[s2].id.0 == prev_gone[k];
                            let m = choose|m: nat| #[trigger] descends(before, before[t2].slots()[s2], rid, m);
                            assert(descends(before, c, rid, m + 1));
                        }
                        assert(derived_from(before, c, rid));
                        let cur = tables.cspaces();
                        let reg = tables.registry();
                        assert(c == before[t].slots()[s]);
                        assert(!(t == tid.0 && s == ptr.0));
                        assert(cur == prev_cur.insert(t, cur[t]));
                        assert(cur[t].slots() == prev_cur[t].slots().remove(s));
                        assert(reg == prev_reg.remove(c.id.0));
                        assert(gone@ == prev_gone.push(c.id.0));
                        assert(removed@ == prev_removed.update(e as int, true));
                        assert forall|t3: u64, s3: u64| #[trigger] held(cur, t3, s3) implies before[t3].slots().contains_key(s3)
                            && cur[t3].slots()[s3] == before[t3].slots()[s3] by {
                            assert(held(prev_cur, t3, s3));
                        }
                        assert forall|f: int| 0 <= f < removed@.len() && #[trigger] removed@[f] implies !cur[entries@[f].0].slots().contains_key(
                            entries@[f].1,
                        ) by {
                            if f != e {
                                assert(prev_removed[f]);
                            }
                        }
                        assert forall|t3: u64, s3: u64|
                            #[trigger] held(before, t3, s3) && !(t3 == tid.0 && s3 == ptr.0) && !cur[t3].slots().contains_key(s3)
                            implies derived_from(before, before[t3].slots()[s3], rid) && gone@.contains(before[t3].slots()[s3].id.0)
                                && !reg.contains_key(before[t3].slots()[s3].id.0) by {
                            if t3 == t && s3 == s {
                                assert(gone@[gone@.len() - 1] == c.id.0);
                            } else {
                                assert(!prev_cur[t3].slots().contains_key(s3));
                                let kk = choose|kk: int| 0 <= kk < prev_gone.len() && prev_gone[kk] == before[t3].slots()[s3].id.0;
                                assert(gone@[kk] == prev_gone[kk]);
                            }
                        }
                        assert forall|kk: int| 0 <= kk < gone@.len() implies #[trigger] gone@[kk] == rid || exists|t4: u64, s4: u64|
                            #![trigger before[t4].slots()[s4]]
                            before.contains_key(t4) && before[t4].slots().contains_key(s4) && !(t4 == tid.0 && s4 == ptr.0)
                                && derived_from(before, before[t4].slots()[s4], rid) && before[t4].slots()[s4].id.0 == gone@[kk] by {
                            if kk < prev_gone.len() {
                                assert(gone@[kk] == prev_gone[kk]);
                            } else {
                                assert(before[t].slots()[s].id.0 == gone@[kk]);
                            }
                        }
                        assert(sweep_inv(before, cur, reg0, reg, tid, ptr, entries@, removed@, gone@));
                    }
                    changed = true;
                }
            }
            e = e + 1;
        }
        if !changed {
            done = true;
        }
        proof {
            lemma_count_true_le(removed@);
        }
    }
    proof {
        let cur = tables.cspaces();
        assert forall|t: u64, s: u64| #[trigger] held(cur, t, s) implies !derived_from(before, before[t].slots()[s], rid) by {
            assert(cur[t].slots()[s] == before[t].slots()[s]);
            if derived_from(before, before[t].slots()[s], rid) {
                let m = choose|m: nat| #[trigger] descends(before, before[t].slots()[s], rid, m);
                lemma_kept_not_derived(before, cur, reg0, tables.registry(), tid, ptr, entries@, removed@, gone@, m);
            }
        }
    }
    true
}

/// How many of `s` are set.
pub open spec fn count_true(s: Seq<bool>) -> nat
    decreases s.len(),
{
    if s.len() == 0 {
        0
    } else {
        count_true(s.drop_last()) + if s.last() {
            1nat
        } else {
            0nat
        }
    }
}

/// Setting an unset flag adds one to the count.
proof fn lemma_count_true_set(s: Seq<bool>, e: int)
    requires
        0 <= e < s.len(),
        !s[e],
    ensures
        count_true(s.update(e, true)) == count_true(s) + 1,
    decreases s.len(),
{
    let u = s.update(e, true);
    if e == s.len() - 1 {
        assert(u.drop_last() =~= s.drop_last());
    } else {
        assert(u.drop_last() =~= s.drop_last().update(e, true));
        lemma_count_true_set(s.drop_last(), e);
    }
}

/// No more flags are set than there are.
proof fn lemma_count_true_le(s: Seq<bool>)
    ensures
        count_true(s) <= s.len(),
    decreases s.len(),
{
    if s.len() > 0 {
        lemma_count_true_le(s.drop_last());
    }
}

/// The slot at `entry` of `cur`, when it holds a capability, has a parent that is
/// not among `gone`.
pub open spec fn parent_kept(cur: Map<u64, CSpace>, entry: (u64, u64), gone: Seq<u64>) -> bool {
    cur.contains_key(entry.0) && cur[entry.0].slots().contains_key(entry.1) ==> match cur[entry.0].slots()[
        entry.1].parent {
        Some(p) => !gone.contains(p.0),
        None => true,
    }
}

/// What holds while revoking: `cur` is `before` without slot `ptr` of `tid` and
/// some capabilities derived from the revoked one (`rid`, the first of `gone`);
/// `gone` holds the ids removed; `entries` lists every other slot of `before`,
/// those flagged in `removed` being empty; the registry lost the ids removed.
pub open spec fn sweep_inv(
    before: Map<u64, CSpace>,
    cur: Map<u64, CSpace>,
    reg0: Map<u64, CapType>,
    reg: Map<u64, CapType>,
    tid: ThreadId,
    ptr: CPtr,
    entries: Seq<(u64, u64)>,
    removed: Seq<bool>,
    gone: Seq<u64>,
) -> bool {
    let rid = before[tid.0].slots()[ptr.0].id.0;
    &&& cur.dom() == before.dom()
    &&& forall|t: u64|
        #[trigger] cur.contains_key(t) ==> cur[t].owner == before[t].owner && cur[t].next_slot() == before[t].next_slot()
    &&& !cur[tid.0].slots().contains_key(ptr.0)
    &&& forall|t: u64, s: u64|
        #[trigger] held(cur, t, s) ==> before[t].slots().contains_key(s) && cur[t].slots()[s] == before[t].slots()[s]
    &&& forall|e: int|
        0 <= e < entries.len() ==> before.contains_key((#[trigger] entries[e]).0) && before[entries[e].0].slots().contains_key(
            entries[e].1,
        ) && !(entries[e].0 == tid.0 && entries[e].1 == ptr.0)
    &&& forall|t: u64, s: u64|
        #[trigger] held(before, t, s) && !(t == tid.0 && s == ptr.0) ==> entries.contains((t, s))
    &&& forall|e: int|
        0 <= e < removed.len() && #[trigger] removed[e] ==> !cur[entries[e].0].slots().contains_key(entries[e].1)
    &&& forall|t: u64, s: u64|
        #[trigger] held(before, t, s) && !(t == tid.0 && s == ptr.0) && !cur[t].slots().contains_key(s) ==> derived_from(
            before,
            before[t].slots()[s],
            rid,
        ) && gone.contains(
            before[t].slots()[s].id.0,
        ) && !reg.contains_key(before[t].slots()[s].id.0)
    &&& forall|k: int|
        0 <= k < gone.len() ==> #[trigger] gone[k] == rid || exists|t: u64, s: u64|
            #![trigger before[t].slots()[s]]
            before.contains_key(t) && before[t].slots().contains_key(s) && !(t == tid.0 && s == ptr.0) && derived_from(
                before,
                before[t].slots()[s],
                rid,
            ) && before[t].slots()[s].id.0 == gone[k]
    &&& forall|k: u64| #[trigger] reg.contains_key(k) ==> reg0.contains_key(k) && reg[k] == reg0[k]
    &&& !reg.contains_key(rid)
}

/// Whether `id` is among `v`.
fn contains_id(v: &Vec<u64>, id: u64) -> (b: bool)
    ensures
        b == v@.contains(id),
{
    let mut i: usize = 0;
    while i < v.len()
        invariant
            i <= v@.len(),
            forall|k: int| 0 <= k < i ==> v@[k] != id,
        decreases v@.len() - i,
    {
        if v[i] == id {
            return true;
        }
        i = i + 1;
    }
    false
}

/// The numbers of the slots of a capability space that hold a capability.
fn slot_numbers(cs: &CSpace) -> (v: Vec<u64>)
    ensures
        forall|s: u64| v@.contains(s) <==> cs.slots().contains_key(s),
{
    broadcast use vstd::std_specs::btree::axiom_spec_keys_iter;
    let mut v: Vec<u64> = Vec::new();
    let ghost keys = vstd::std_specs::btree::spec_keys_iter(&cs.slots).remaining();
    for k in it: cs.slots.keys()
        invariant
            v@.len() == it.index(),
            it.seq() == keys,
            forall|j: int| 0 <= j < v@.len() ==> v@[j] == *keys[j],
    {
        v.push(*k);
    }
    assert(v@.len() == keys.len());
    assert forall|s: u64| v@.contains(s) <==> cs.slots().contains_key(s) by {
        if cs.slots().contains_key(s) {
            assert(keys.unref().to_set().contains(s));
            let j = choose|j: int| 0 <= j < keys.len() && keys.unref()[j] == s;
            assert(v@[j] == s);
        }
        if v@.contains(s) {
            let j = choose|j: int| 0 <= j < v@.len() && v@[j] == s;
            assert(keys.unref()[j] == s);
            assert(keys.unref().to_set().contains(s));
        }
    }
    v
}

/// Whether slot `s` of thread `t` holds a capability in `cspaces`.
pub open spec fn held(cspaces: Map<u64, CSpace>, t: u64, s: u64) -> bool {
    cspaces.contains_key(t) && cspaces[t].slots().contains_key(s)
}

/// Every (thread, slot) that holds a capability.
fn slot_list(tables: &CapabilityTables) -> (v: Vec<(u64, u64)>)
    ensures
        forall|e: int| 0 <= e < v@.len() ==> held(tables.cspaces(), (#[trigger] v@[e]).0, v@[e].1),
        forall|t: u64, s: u64| #[trigger] held(tables.cspaces(), t, s) ==> v@.contains((t, s)),
{
    let threads = thread_numbers(tables);
    let mut v: Vec<(u64, u64)> = Vec::new();
    let mut i: usize = 0;
    while i < threads.len()
        invariant
            i <= threads@.len(),
            forall|t: u64| threads@.contains(t) <==> tables.cspaces().contains_key(t),
            forall|e: int| 0 <= e < v@.len() ==> held(tables.cspaces(), (#[trigger] v@[e]).0, v@[e].1),
            forall|j: int, s: u64|
                0 <= j < i && #[trigger] held(tables.cspaces(), threads@[j], s) ==> v@.contains((threads@[j], s)),
        decreases threads@.len() - i,
    {
        let t = threads[i];
        assert(threads@.contains(t));
        let cs = tables.cspaces.get(&t).unwrap();
        let slots = slot_numbers(cs);
        let ghost base = v@;
        let mut j: usize = 0;
        while j < slots.len()
            invariant
                j <= slots@.len(),
                base.len() <= v@.len(),
                v@.subrange(0, base.len() as int) == base,
                tables.cspaces().contains_key(t),
                *cs == tables.cspaces()[t],
                forall|s: u64| slots@.contains(s) <==> cs.slots().contains_key(s),
                forall|e: int| 0 <= e < v@.len() ==> held(tables.cspaces(), (#[trigger] v@[e]).0, v@[e].1),
                forall|m: int| 0 <= m < j ==> v@.contains((t, #[trigger] slots@[m])),
            decreases slots@.len() - j,
        {
            assert(slots@.contains(slots@[j as int]));
            let ghost pre = v@;
            v.push((t, slots[j]));
            assert forall|m: int| 0 <= m < j + 1 implies v@.contains((t, #[trigger] slots@[m])) by {
                if m < j {
                    let e = choose|e: int| 0 <= e < pre.len() && pre[e] == (t, slots@[m]);
                    assert(v@[e] == pre[e]);
                } else {
                    assert(v@[pre.len() as int] == (t, slots@[m]));
                }
            }
            j = j + 1;
        }
        assert forall|jj: int, s: u64|
            0 <= jj < i + 1 && #[trigger] held(tables.cspaces(), threads@[jj], s) implies v@.contains((threads@[jj], s)) by {
            if jj < i {
                assert(base.contains((threads@[jj], s)));
                let e = choose|e: int| 0 <= e < base.len() && base[e] == (threads@[jj], s);
                assert(v@.subrange(0, base.len() as int)[e] == base[e]);
                assert(v@[e] == base[e]);
            } else {
                assert(slots@.contains(s));
                let m = choose|m: int| 0 <= m < slots@.len() && slots@[m] == s;
                assert(v@.contains((t, slots@[m])));
            }
        }
        i = i + 1;
    }
    assert forall|t: u64, s: u64| #[trigger] held(tables.cspaces(), t, s) implies v@.contains((t, s)) by {
        assert(threads@.contains(t));
        let jj = choose|jj: int| 0 <= jj < threads@.len() && threads@[jj] == t;
        assert(held(tables.cspaces(), threads@[jj], s));
    }
    v
}

/// No capability still held after a finished sweep derives from the revoked one.
proof fn lemma_kept_not_derived(
    before: Map<u64, CSpace>,
    cur: Map<u64, CSpace>,
    reg0: Map<u64, CapType>,
    reg: Map<u64, CapType>,
    tid: ThreadId,
    ptr: CPtr,
    entries: Seq<(u64, u64)>,
    removed: Seq<bool>,
    gone: Seq<u64>,
    n: nat,
)
    requires
        before.contains_key(tid.0) && before[tid.0].slots().contains_key(ptr.0),
        gone.len() >= 1,
        gone[0] == before[tid.0].slots()[ptr.0].id.0,
        removed.len() == entries.len(),
        sweep_inv(before, cur, reg0, reg, tid, ptr, entries, removed, gone),
        forall|e: int| 0 <= e < entries.len() && !removed[e] ==> parent_kept(cur, #[trigger] entries[e], gone),
    ensures
        forall|t: u64, s: u64| #[trigger] held(cur, t, s) ==> !descends(before, cur[t].slots()[s], gone[0], n),
    decreases n,
{
    let rid = gone[0];
    if n > 0 {
        lemma_kept_not_derived(before, cur, reg0, reg, tid, ptr, entries, removed, gone, (n - 1) as nat);
    }
    assert forall|t: u64, s: u64| #[trigger] held(cur, t, s) implies !descends(before, cur[t].slots()[s], rid, n) by {
        let c = cur[t].slots()[s];
        assert(before[t].slots()[s] == c);
        assert(before.contains_key(t));
        assert(!(t == tid.0 && s == ptr.0));
        assert(held(before, t, s));
        assert(entries.contains((t, s)));
        let e = choose|e: int| 0 <= e < entries.len() && entries[e] == (t, s);
        assert(!removed[e]);
        assert(parent_kept(cur, entries[e], gone));
        if descends(before, c, rid, n) {
            let p = c.parent.unwrap();
            assert(gone[0] == rid);
            assert(p.0 != rid);
            let (t2, s2) = choose|t2: u64, s2: u64|
                #![trigger before[t2].slots()[s2]]
                before.contains_key(t2) && before[t2].slots().contains_key(s2) && before[t2].slots()[s2].id == p && descends(
                    before,
                    before[t2].slots()[s2],
                    rid,
                    (n - 1) as nat,
                );
            assert(held(before, t2, s2));
            assert(cur.contains_key(t2));
            if t2 == tid.0 && s2 == ptr.0 {
                assert(false);
            } else if cur[t2].slots().contains_key(s2) {
                assert(held(cur, t2, s2));
                assert(cur[t2].slots()[s2] == before[t2].slots()[s2]);
                assert(false);
            } else {
                assert(gone.contains(before[t2].slots()[s2].id.0));
                assert(false);
            }
        }
    }
}

/// The numbers of the threads that have a capability space.
fn thread_numbers(tables: &CapabilityTables) -> (v: Vec<u64>)
    ensures
        forall|t: u64| v@.contains(t) <==> tables.cspaces().contains_key(t),
{
    broadcast use vstd::std_specs::btree::axiom_spec_keys_iter;
    let mut v: Vec<u64> = Vec::new();
    let ghost keys = vstd::std_specs::btree::spec_keys_iter(&tables.cspaces).remaining();
    for k in it: tables.cspaces.keys()
        invariant
            v@.len() == it.index(),
            it.seq() == keys,
            forall|j: int| 0 <= j < v@.len() ==> v@[j] == *keys[j],
    {
        v.push(*k);
    }
    assert(v@.len() == keys.len());
    assert forall|t: u64| v@.contains(t) <==> tables.cspaces().contains_key(t) by {
        if tables.cspaces().contains_key(t) {
            assert(keys.unref().to_set().contains(t));
            let j = choose|j: int| 0 <= j < keys.len() && keys.unref()[j] == t;
            assert(v@[j] == t);
        }
        if v@.contains(t) {
            let j = choose|j: int| 0 <= j < v@.len() && v@[j] == t;
            assert(keys.unref()[j] == t);
            assert(keys.unref().to_set().contains(t));
        }
    }
    v
}

/// Validate a capability reference: the thread holds, at `ptr`, a capability of the
/// given type with at least the required rights.
pub fn validate(tables: &CapabilityTables, tid: ThreadId, ptr: CPtr, cap_type: CapType, required_rights: CapRights) -> (b: bool)
    ensures
        b == validate_spec(tables.cspaces(), tid, ptr, cap_type, required_rights),
{
    match tables.cspaces.get(&tid.0) {
        Some(cspace) => match cspace.get(ptr) {
            Some(cap) => cap.cap_type == cap_type && cap.has_rights(required_rights),
            None => false,
        },
        None => false,
    }
}

/// After a revocation, neither the revoked capability nor any capability derived
/// from it (directly, or through a chain of parents) validates, in any thread, for
/// any type or rights; every other capability still validates as before.
pub proof fn law_revoke_then_validate(
    before: Map<u64, CSpace>,
    after: Map<u64, CSpace>,
    reg_before: Map<u64, CapType>,
    reg_after: Map<u64, CapType>,
    tid: ThreadId,
    ptr: CPtr,
    t: u64,
    s: u64,
    ty: CapType,
    rights: CapRights,
)
    requires
        revoked(before, after, reg_before, reg_after, tid, ptr),
    ensures
        !validate_spec(after, tid, ptr, ty, rights),
        held(before, t, s) && (before[t].slots()[s].parent == Some(before[tid.0].slots()[ptr.0].id)
            || derived_from(before, before[t].slots()[s], before[tid.0].slots()[ptr.0].id.0))
            ==> !validate_spec(after, ThreadId(t), CPtr(s), ty, rights),
        held(before, t, s) && !(t == tid.0 && s == ptr.0)
            && !derived_from(before, before[t].slots()[s], before[tid.0].slots()[ptr.0].id.0)
            ==> validate_spec(after, ThreadId(t), CPtr(s), ty, rights) == validate_spec(before, ThreadId(t), CPtr(s), ty, rights),
{
    let rid = before[tid.0].slots()[ptr.0].id.0;
    if held(before, t, s) {
        let c = before[t].slots()[s];
        if c.parent == Some(before[tid.0].slots()[ptr.0].id) {
            assert(descends(before, c, rid, 0));
        }
        if held(after, t, s) {
            assert(after[t].slots()[s] == c);
        }
    }
}

/// A granted capability validates, at the pointer the grant returned, for its own type
/// and exactly for the rights it contains.
pub proof fn law_grant_then_validate(
    before: Map<u64, CSpace>,
    after: Map<u64, CSpace>,
    tid: ThreadId,
    cap: Capability,
    ptr: CPtr,
    asked: CapRights,
)
    requires
        before.contains_key(tid.0),
        ptr == CPtr(before[tid.0].next_slot()),
        after.contains_key(tid.0),
        after[tid.0].slots() == before[tid.0].slots().insert(before[tid.0].next_slot(), cap),
    ensures
        validate_spec(after, tid, ptr, cap.cap_type, asked) == cap.rights.spec_contains(asked),
{
}

} // verus!
