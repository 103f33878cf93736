use kernel::capability::{
    create_cspace, destroy_cspace, grant, revoke, validate, CPtr, CSpace, CapId, CapRights, CapType,
    CapIdAllocator, Capability, CapabilityTables, RIGHT_ALL, RIGHT_GRANT, RIGHT_READ, RIGHT_WRITE,
};
use kernel::ipc::ThreadId;

#[test]
fn rights_sets() {
    let rw = CapRights::from_bits(RIGHT_READ | RIGHT_WRITE);
    assert!(rw.contains(CapRights::from_bits(RIGHT_READ)));
    assert!(!rw.contains(CapRights::from_bits(RIGHT_GRANT)));
    assert!(CapRights::all().contains(rw));
    assert_eq!(CapRights::all().bits, RIGHT_ALL);
    assert!(rw.contains(CapRights::empty()));
    assert_eq!(rw.union(CapRights::from_bits(RIGHT_GRANT)).bits, RIGHT_READ | RIGHT_WRITE | RIGHT_GRANT);
}

#[test]
fn derive_needs_grant_and_subset() {
    let mut ids = CapIdAllocator::new();
    let root = Capability::new(&mut ids, CapType::Frame, CapRights::all(), 0x1000);
    assert_eq!(root.id, CapId(1));
    assert_eq!(root.parent, None);
    let child = root.derive(&mut ids, CapRights::from_bits(RIGHT_READ | RIGHT_GRANT)).unwrap();
    assert_eq!(child.parent, Some(CapId(1)));
    assert_eq!(child.id, CapId(2));
    assert_eq!(child.object, 0x1000);
    assert_eq!(child.cap_type, CapType::Frame);
    // not a subset of the parent's rights
    assert_eq!(child.derive(&mut ids, CapRights::from_bits(RIGHT_WRITE)), None);
    // the parent lacks the grant right
    let ro = child.derive(&mut ids, CapRights::from_bits(RIGHT_READ)).unwrap();
    assert_eq!(ro.id, CapId(3));
    assert_eq!(ro.derive(&mut ids, CapRights::from_bits(RIGHT_READ)), None);
    // rights shrink along derivations
    assert!(root.has_rights(ro.rights));
}

#[test]
fn cspace_slots() {
    let mut cs = CSpace::new(ThreadId(1));
    let mut ids = CapIdAllocator::new();
    let cap = Capability::new(&mut ids, CapType::Endpoint, CapRights::all(), 5);
    assert_eq!(cs.insert(cap), CPtr(1));
    assert_eq!(cs.insert(cap), CPtr(2));
    assert_eq!(cs.get(CPtr(1)), Some(&cap));
    assert!(cs.has_cap(CPtr(2), CapRights::from_bits(RIGHT_READ)));
    assert_eq!(cs.remove(CPtr(1)), Some(cap));
    assert_eq!(cs.get(CPtr(1)), None);
    assert!(!cs.has_cap(CPtr(1), CapRights::empty()));
}

#[test]
fn grant_then_validate_then_revoke() {
    let mut t = CapabilityTables::new();
    let tid = ThreadId(3);
    let mut ids = CapIdAllocator { next: 10 };
    let cap = Capability::new(&mut ids, CapType::Irq, CapRights::from_bits(RIGHT_READ), 33);
    assert_eq!(grant(&mut t, tid, cap), None);
    create_cspace(&mut t, tid);
    let p = grant(&mut t, tid, cap).unwrap();
    assert_eq!(p, CPtr(1));
    assert!(validate(&t, tid, p, CapType::Irq, CapRights::from_bits(RIGHT_READ)));
    assert!(!validate(&t, tid, p, CapType::Irq, CapRights::from_bits(RIGHT_WRITE)));
    assert!(!validate(&t, tid, p, CapType::Frame, CapRights::empty()));
    assert!(!validate(&t, ThreadId(4), p, CapType::Irq, CapRights::empty()));
    assert!(revoke(&mut t, tid, p));
    assert!(!revoke(&mut t, tid, p));
    assert!(!validate(&t, tid, p, CapType::Irq, CapRights::empty()));
    destroy_cspace(&mut t, tid);
    assert_eq!(grant(&mut t, tid, cap), None);
}

#[test]
fn revoke_takes_derived_capabilities_along() {
    let mut t = CapabilityTables::new();
    let mut ids = CapIdAllocator::new();
    let (t1, t2) = (ThreadId(1), ThreadId(2));
    create_cspace(&mut t, t1);
    create_cspace(&mut t, t2);
    let c = Capability::new(&mut ids, CapType::Endpoint, CapRights::all(), 7);
    let p = grant(&mut t, t1, c).unwrap();
    let d = c.derive(&mut ids, CapRights::from_bits(RIGHT_READ | RIGHT_GRANT)).unwrap();
    let q = grant(&mut t, t2, d).unwrap();
    let e = d.derive(&mut ids, CapRights::from_bits(RIGHT_READ)).unwrap();
    let r = grant(&mut t, t1, e).unwrap();
    let other = Capability::new(&mut ids, CapType::Frame, CapRights::all(), 9);
    let o = grant(&mut t, t2, other).unwrap();
    assert!(revoke(&mut t, t1, p));
    assert!(!validate(&t, t1, p, c.cap_type, CapRights::empty()));
    assert!(!validate(&t, t2, q, d.cap_type, CapRights::empty()));
    assert!(!validate(&t, t1, r, e.cap_type, CapRights::empty()));
    assert!(validate(&t, t2, o, CapType::Frame, CapRights::empty()));
}
