//! Device manager: the device tree (devices by id, with parents and children),
//! registered drivers and driver binding.
pub mod resources;
pub mod tree;

use vstd::prelude::*;
use std::collections::BTreeMap;
use tree::{Device, DeviceId, DeviceState};
use crate::text::{push_str, push_char};

verus! {

broadcast use vstd::std_specs::btree::group_btree_axioms;

/// Device class categories
#[derive(Debug, Clone, Copy, PartialEq, Eq, Structural)]
pub enum DeviceClass {
    Root,
    BlockDevice,
    Keyboard,
    Mouse,
    Touchpad,
    Gamepad,
    GenericInput,
    DisplayController,
    Framebuffer,
    Ethernet,
    Wireless,
    UsbController,
    UsbHub,
    UsbDevice,
    SerialPort,
    AudioController,
    Unknown(u16),
}

/// The name of a device class.
pub open spec fn class_name(c: DeviceClass) -> Seq<char> {
    match c {
        DeviceClass::Root => "root"@,
        DeviceClass::BlockDevice => "block"@,
        DeviceClass::Keyboard => "keyboard"@,
        DeviceClass::Mouse => "mouse"@,
        DeviceClass::Touchpad => "touchpad"@,
        DeviceClass::Gamepad => "gamepad"@,
        DeviceClass::GenericInput => "input"@,
        DeviceClass::DisplayController => "display"@,
        DeviceClass::Framebuffer => "framebuffer"@,
        DeviceClass::Ethernet => "ethernet"@,
        DeviceClass::Wireless => "wireless"@,
        DeviceClass::UsbController => "usb-controller"@,
        DeviceClass::UsbHub => "usb-hub"@,
        DeviceClass::UsbDevice => "usb-device"@,
        DeviceClass::SerialPort => "serial"@,
        DeviceClass::AudioController => "audio"@,
        DeviceClass::Unknown(_) => "unknown"@,
    }
}

impl DeviceClass {
    /// Get a human-readable name for the device class
    pub fn name(&self) -> (s: &'static str)
        ensures
            s@ == class_name(*self),
    {
        match self {
            DeviceClass::Root => "root",
            DeviceClass::BlockDevice => "block",
            DeviceClass::Keyboard => "keyboard",
            DeviceClass::Mouse => "mouse",
            DeviceClass::Touchpad => "touchpad",
            DeviceClass::Gamepad => "gamepad",
            DeviceClass::GenericInput => "input",
            DeviceClass::DisplayController => "display",
            DeviceClass::Framebuffer => "framebuffer",
            DeviceClass::Ethernet => "ethernet",
            DeviceClass::Wireless => "wireless",
            DeviceClass::UsbController => "usb-controller",
            DeviceClass::UsbHub => "usb-hub",
            DeviceClass::UsbDevice => "usb-device",
            DeviceClass::SerialPort => "serial",
            DeviceClass::AudioController => "audio",
            DeviceClass::Unknown(_) => "unknown",
        }
    }
}

/// Bus types
#[derive(Debug, Clone, Copy, PartialEq, Eq, Structural)]
pub enum BusType {
    /// Virtual root bus
    Root,
    /// PCI/PCIe bus
    Pci,
    /// USB bus
    Usb,
    /// Platform/SoC devices
    Platform,
    /// VirtIO (MMIO or PCI)
    VirtIO,
    /// I2C bus
    I2c,
    /// SPI bus
    Spi,
}

/// The name of a bus type.
pub open spec fn bus_name(b: BusType) -> Seq<char> {
    match b {
        BusType::Root => "root"@,
        BusType::Pci => "pci"@,
        BusType::Usb => "usb"@,
        BusType::Platform => "platform"@,
        BusType::VirtIO => "virtio"@,
        BusType::I2c => "i2c"@,
        BusType::Spi => "spi"@,
    }
}

impl BusType {
    /// Get bus type name
    pub fn name(&self) -> (s: &'static str)
        ensures
            s@ == bus_name(*self),
    {
        match self {
            BusType::Root => "root",
            BusType::Pci => "pci",
            BusType::Usb => "usb",
            BusType::Platform => "platform",
            BusType::VirtIO => "virtio",
            BusType::I2c => "i2c",
            BusType::Spi => "spi",
        }
    }
}

/// Driver ID
#[derive(Debug, Clone, Copy, PartialEq, Eq, Structural)]
pub struct DriverId(pub u32);

/// The device ID counter.
pub struct DeviceIdAllocator {
    pub next: u64,
}

impl DeviceIdAllocator {
    /// IDs from 1.
    pub fn new() -> (a: DeviceIdAllocator)
        ensures
            a.next == 1,
    {
        DeviceIdAllocator { next: 1 }
    }
}

/// Generate a new device ID: the counter's value, which then advances (wrapping)
pub fn alloc_device_id(ids: &mut DeviceIdAllocator) -> (id: DeviceId)
    ensures
        id.0 == old(ids).next,
        final(ids).next == old(ids).next.wrapping_add(1),
{
    let id = DeviceId(ids.next);
    ids.next = ids.next.wrapping_add(1);
    id
}

/// Driver information
pub struct DriverInfo {
    /// Driver name
    pub name: String,
    /// Supported device classes
    pub supported_classes: Vec<DeviceClass>,
    /// Supported bus types
    pub supported_buses: Vec<BusType>,
}

/// Device Manager: the devices, in id order (each id once), the root, the drivers
pub struct DeviceManager {
    pub devices: Vec<Device>,
    pub root: Option<DeviceId>,
    pub drivers: BTreeMap<u32, DriverInfo>,
    pub next_driver_id: u32,
}

/// Whether `devs` has a device with id `id`.
pub open spec fn has_id(devs: Seq<Device>, id: u64) -> bool {
    exists|i: int| 0 <= i < devs.len() && (#[trigger] devs[i]).id.0 == id
}

/// The position of the device with id `id` (meaningful when there is one).
pub open spec fn pos_of(devs: Seq<Device>, id: u64) -> int {
    choose|i: int| 0 <= i < devs.len() && (#[trigger] devs[i]).id.0 == id
}

/// Two device records agree on name, class, bus, parent, resources and PCI/USB ids.
pub open spec fn same_fields(a: Device, b: Device) -> bool {
    &&& a.name@ == b.name@
    &&& a.class == b.class
    &&& a.bus == b.bus
    &&& a.parent == b.parent
    &&& a.resources == b.resources
    &&& a.vendor_id == b.vendor_id
    &&& a.device_id == b.device_id
}

/// Every device of `old_d` but the one with id `id` is still in `new_d` with the
/// same record fields (`same_fields`).
#[verifier::opaque]
pub open spec fn others_kept(old_d: Seq<Device>, new_d: Seq<Device>, id: u64) -> bool {
    forall|j: u64|
        #![trigger has_id(old_d, j)]
        has_id(old_d, j) && j != id ==> has_id(new_d, j) && same_fields(new_d[pos_of(new_d, j)], old_d[pos_of(old_d, j)])
}

/// The children listed by the device with id `x` (none when there is no such device).
pub open spec fn children_of(devs: Seq<Device>, x: u64) -> Seq<DeviceId> {
    if has_id(devs, x) {
        devs[pos_of(devs, x)].children@
    } else {
        Seq::empty()
    }
}

/// `p` is a path from `root` down the children lists: it starts at `root` and each
/// id after the first is listed among the children of the one before.
pub open spec fn is_path(devs: Seq<Device>, root: u64, p: Seq<u64>) -> bool {
    &&& p.len() >= 1
    &&& p[0] == root
    &&& forall|i: int| 0 <= i < p.len() - 1 ==> #[trigger] children_of(devs, p[i]).contains(DeviceId(p[i + 1]))
}

/// `x` lies in the subtree below `root` (`root` included).
pub open spec fn in_subtree(devs: Seq<Device>, root: u64, x: u64) -> bool {
    exists|p: Seq<u64>| #[trigger] is_path(devs, root, p) && p.last() == x
}

/// `b` is the record `a` with, at most, another children list.
pub open spec fn same_but_children(a: Device, b: Device) -> bool {
    b == Device { children: b.children, ..a }
}

/// Every device of `new_d` was in `old_d` with the same record but for its children;
/// its children list only lost ids, and only ids of devices that are gone.
pub open spec fn kept_records(old_d: Seq<Device>, new_d: Seq<Device>) -> bool {
    forall|x: u64|
        #![trigger has_id(new_d, x)]
        has_id(new_d, x) ==> {
            &&& has_id(old_d, x)
            &&& same_but_children(old_d[pos_of(old_d, x)], new_d[pos_of(new_d, x)])
            &&& forall|c: DeviceId| #[trigger] children_of(new_d, x).contains(c) ==> children_of(old_d, x).contains(c)
            &&& forall|c: DeviceId|
                #[trigger] children_of(old_d, x).contains(c) && !children_of(new_d, x).contains(c)
                    ==> has_id(old_d, c.0) && !has_id(new_d, c.0)
        }
}

/// Every device that went away lies in the subtree below `root`.
pub open spec fn removed_within(old_d: Seq<Device>, new_d: Seq<Device>, root: u64) -> bool {
    forall|x: u64| #![trigger has_id(old_d, x)] has_id(old_d, x) && !has_id(new_d, x) ==> in_subtree(old_d, root, x)
}

/// The children of every device that went away went too; of `root` itself, this is
/// claimed for the children among the first `done` of its list.
pub open spec fn removal_closed(old_d: Seq<Device>, new_d: Seq<Device>, root: u64, done: int) -> bool {
    forall|x: u64, c: DeviceId|
        #![trigger has_id(old_d, x), children_of(old_d, x).contains(c)]
        has_id(old_d, x) && !has_id(new_d, x) && children_of(old_d, x).contains(c)
            && (x != root || children_of(old_d, root).subrange(0, done).contains(c))
            ==> !has_id(new_d, c.0)
}

/// Unregistering `root` took away exactly the devices of its subtree.
pub open spec fn subtree_removed(old_d: Seq<Device>, new_d: Seq<Device>, root: u64) -> bool {
    forall|x: u64| #![trigger has_id(old_d, x)] has_id(old_d, x) ==> (has_id(new_d, x) <==> !in_subtree(old_d, root, x))
}

/// A path in the children lists of `u` is one in those of `s`, when `u` only lost
/// devices and children.
proof fn lemma_path_mono(s: Seq<Device>, u: Seq<Device>, r: u64, p: Seq<u64>)
    requires
        kept_records(s, u),
        is_path(u, r, p),
    ensures
        is_path(s, r, p),
{
    assert forall|i: int| 0 <= i < p.len() - 1 implies #[trigger] children_of(s, p[i]).contains(DeviceId(p[i + 1])) by {
        assert(children_of(u, p[i]).contains(DeviceId(p[i + 1])));
        assert(has_id(u, p[i]));
    }
}

/// The subtree below a child of `id` lies in the subtree below `id`.
proof fn lemma_path_step(s: Seq<Device>, id: u64, c: DeviceId, x: u64)
    requires
        children_of(s, id).contains(c),
        in_subtree(s, c.0, x),
    ensures
        in_subtree(s, id, x),
{
    let p = choose|p: Seq<u64>| #[trigger] is_path(s, c.0, p) && p.last() == x;
    let q = seq![id] + p;
    assert(DeviceId(c.0) == c);
    assert forall|i: int| 0 <= i < q.len() - 1 implies #[trigger] children_of(s, q[i]).contains(DeviceId(q[i + 1])) by {
        if i > 0 {
            let j = i - 1;
            assert(q[i] == p[j] && q[i + 1] == p[j + 1]);
            assert(children_of(s, p[j]).contains(DeviceId(p[j + 1])));
        }
    }
    assert(is_path(s, id, q));
    assert(q.last() == x);
}

/// When the removal is closed under children, every device on a path from `id` went away.
proof fn lemma_subtree_gone(s: Seq<Device>, t: Seq<Device>, id: u64, p: Seq<u64>)
    requires
        removal_closed(s, t, id, children_of(s, id).len() as int),
        !has_id(t, id),
        is_path(s, id, p),
        has_id(s, p.last()),
    ensures
        !has_id(t, p.last()),
    decreases p.len(),
{
    if p.len() > 1 {
        let q = p.drop_last();
        let y = q.last();
        let j = p.len() - 2;
        assert(children_of(s, p[j]).contains(DeviceId(p[j + 1])));
        assert(has_id(s, y));
        assert forall|i: int| 0 <= i < q.len() - 1 implies #[trigger] children_of(s, q[i]).contains(DeviceId(q[i + 1])) by {
            assert(children_of(s, p[i]).contains(DeviceId(p[i + 1])));
        }
        lemma_subtree_gone(s, t, id, q);
        assert(children_of(s, id).subrange(0, children_of(s, id).len() as int) =~= children_of(s, id));
        assert(DeviceId(p.last()).0 == p.last());
        assert(children_of(s, y).contains(DeviceId(p.last())));
    }
}

/// Losing devices and children twice in a row is losing them once.
proof fn lemma_kept_trans(s: Seq<Device>, u: Seq<Device>, u2: Seq<Device>)
    requires
        kept_records(s, u),
        kept_records(u, u2),
    ensures
        kept_records(s, u2),
{
    assert forall|x: u64| #![trigger has_id(u2, x)] has_id(u2, x) implies {
        &&& has_id(s, x)
        &&& same_but_children(s[pos_of(s, x)], u2[pos_of(u2, x)])
        &&& forall|c: DeviceId| #[trigger] children_of(u2, x).contains(c) ==> children_of(s, x).contains(c)
        &&& forall|c: DeviceId|
            #[trigger] children_of(s, x).contains(c) && !children_of(u2, x).contains(c)
                ==> has_id(s, c.0) && !has_id(u2, c.0)
    } by {
        assert(has_id(u, x));
        assert forall|c: DeviceId|
            #[trigger] children_of(s, x).contains(c) && !children_of(u2, x).contains(c)
                implies has_id(s, c.0) && !has_id(u2, c.0) by {
            if children_of(u, x).contains(c) {
                assert(has_id(u, c.0));
            } else {
                if has_id(u2, c.0) {
                    assert(has_id(u, c.0));
                }
            }
        }
    }
}

/// Unregistering the child at `k` of `id`'s list, after the children before it,
/// leaves the removal closed for the first `k + 1` children.
proof fn lemma_remove_child_step(s: Seq<Device>, u: Seq<Device>, u2: Seq<Device>, id: u64, k: int)
    requires
        0 <= k < children_of(s, id).len(),
        !has_id(u, id),
        kept_records(s, u),
        removed_within(s, u, id),
        removal_closed(s, u, id, k),
        kept_records(u, u2),
        removed_within(u, u2, children_of(s, id)[k].0),
        removal_closed(u, u2, children_of(s, id)[k].0, children_of(u, children_of(s, id)[k].0).len() as int),
        !has_id(u2, children_of(s, id)[k].0),
    ensures
        kept_records(s, u2),
        removed_within(s, u2, id),
        removal_closed(s, u2, id, k + 1),
{
    let c = children_of(s, id)[k];
    lemma_kept_trans(s, u, u2);
    assert(children_of(s, id).contains(c));
    assert forall|x: u64| #![trigger has_id(s, x)] has_id(s, x) && !has_id(u2, x) implies in_subtree(s, id, x) by {
        if has_id(u, x) {
            assert(in_subtree(u, c.0, x));
            let p = choose|p: Seq<u64>| #[trigger] is_path(u, c.0, p) && p.last() == x;
            lemma_path_mono(s, u, c.0, p);
            lemma_path_step(s, id, c, x);
        }
    }
    assert forall|x: u64, d: DeviceId|
        #![trigger has_id(s, x), children_of(s, x).contains(d)]
        has_id(s, x) && !has_id(u2, x) && children_of(s, x).contains(d)
            && (x != id || children_of(s, id).subrange(0, k + 1).contains(d))
            implies !has_id(u2, d.0) by {
        if has_id(u2, d.0) {
            assert(has_id(u, d.0));
        }
        if !has_id(u, x) {
            if x == id && !children_of(s, id).subrange(0, k).contains(d) {
                let j = choose|j: int| 0 <= j < k + 1 && #[trigger] children_of(s, id).subrange(0, k + 1)[j] == d;
                if j < k {
                    assert(children_of(s, id).subrange(0, k)[j] == d);
                }
                assert(d == c);
            }
        } else {
            if children_of(u, x).contains(d) {
                let cu = children_of(u, c.0);
                assert(cu.subrange(0, cu.len() as int) =~= cu);
            }
        }
    }
}

/// Taking the device at `i` out of a list with increasing ids takes away that device
/// alone and leaves the others as they were.
proof fn lemma_take_out(s: Seq<Device>, i: int)
    requires
        0 <= i < s.len(),
        forall|a: int, b: int| 0 <= a < b < s.len() ==> (#[trigger] s[a]).id.0 < (#[trigger] s[b]).id.0,
    ensures
        kept_records(s, s.remove(i)),
        removed_within(s, s.remove(i), s[i].id.0),
        removal_closed(s, s.remove(i), s[i].id.0, 0),
        !has_id(s.remove(i), s[i].id.0),
        forall|x: u64| #[trigger] has_id(s, x) && x != s[i].id.0 ==> has_id(s.remove(i), x),
{
    let u = s.remove(i);
    let id = s[i].id.0;
    assert forall|x: u64| #![trigger has_id(u, x)] has_id(u, x) implies {
        &&& has_id(s, x)
        &&& same_but_children(s[pos_of(s, x)], u[pos_of(u, x)])
        &&& forall|c: DeviceId| #[trigger] children_of(u, x).contains(c) ==> children_of(s, x).contains(c)
        &&& forall|c: DeviceId|
            #[trigger] children_of(s, x).contains(c) && !children_of(u, x).contains(c)
                ==> has_id(s, c.0) && !has_id(u, c.0)
    } by {
        let j = pos_of(u, x);
        let j0 = if j < i { j } else { j + 1 };
        assert(u[j] == s[j0]);
        lemma_pos_of_unique(s, j0);
        assert(children_of(u, x) == children_of(s, x));
    }
    assert forall|x: u64| #[trigger] has_id(s, x) && x != id implies has_id(u, x) by {
        let k = pos_of(s, x);
        let k1 = if k < i { k } else { k - 1 };
        assert(k != i);
        assert(u[k1] == s[k]);
    }
    assert(!has_id(u, id)) by {
        if has_id(u, id) {
            let j = pos_of(u, id);
            let j0 = if j < i { j } else { j + 1 };
            assert(u[j] == s[j0]);
            if j0 < i {
                assert(s[j0].id.0 < s[i].id.0);
            } else {
                assert(s[i].id.0 < s[j0].id.0);
            }
        }
    }
    assert forall|x: u64| #![trigger has_id(s, x)] has_id(s, x) && !has_id(u, x) implies in_subtree(s, id, x) by {
        let p = seq![x];
        assert(is_path(s, id, p));
    }
}

/// Dropping `id` from the children list of the device at `pi`, once `id` is gone,
/// keeps what the removal so far has shown.
proof fn lemma_drop_from_parent(s: Seq<Device>, u: Seq<Device>, u2: Seq<Device>, id: u64, pi: int)
    requires
        0 <= pi < u.len(),
        forall|a: int, b: int| 0 <= a < b < u.len() ==> (#[trigger] u[a]).id.0 < (#[trigger] u[b]).id.0,
        has_id(s, id),
        !has_id(u, id),
        kept_records(s, u),
        removed_within(s, u, id),
        removal_closed(s, u, id, 0),
        u2.len() == u.len(),
        forall|j: int| 0 <= j < u.len() && j != pi ==> #[trigger] u2[j] == u[j],
        same_but_children(u[pi], u2[pi]),
        forall|c: DeviceId| #[trigger] u2[pi].children@.contains(c) <==> u[pi].children@.contains(c) && c.0 != id,
    ensures
        kept_records(s, u2),
        removed_within(s, u2, id),
        removal_closed(s, u2, id, 0),
        !has_id(u2, id),
        forall|x: u64| #[trigger] has_id(u2, x) <==> has_id(u, x),
        !children_of(u2, u[pi].id.0).contains(DeviceId(id)),
{
    assert forall|x: u64| #[trigger] has_id(u2, x) <==> has_id(u, x) by {
        if has_id(u2, x) {
            let j = pos_of(u2, x);
            assert(u[j].id == u2[j].id);
        }
        if has_id(u, x) {
            let j = pos_of(u, x);
            assert(u[j].id == u2[j].id);
        }
    }
    assert forall|a: int, b: int| 0 <= a < b < u2.len() implies (#[trigger] u2[a]).id.0 < (#[trigger] u2[b]).id.0 by {
        assert(u[a].id == u2[a].id && u[b].id == u2[b].id);
    }
    assert forall|x: u64| #![trigger has_id(u2, x)] has_id(u2, x) implies {
        &&& has_id(s, x)
        &&& same_but_children(s[pos_of(s, x)], u2[pos_of(u2, x)])
        &&& forall|c: DeviceId| #[trigger] children_of(u2, x).contains(c) ==> children_of(s, x).contains(c)
        &&& forall|c: DeviceId|
            #[trigger] children_of(s, x).contains(c) && !children_of(u2, x).contains(c)
                ==> has_id(s, c.0) && !has_id(u2, c.0)
    } by {
        assert(has_id(u, x));
        let j = pos_of(u, x);
        lemma_pos_of_unique(u, j);
        assert(u2[j].id.0 == x);
        lemma_pos_of_unique(u2, j);
        assert(same_but_children(u[j], u2[j]));
        assert(same_but_children(s[pos_of(s, x)], u2[pos_of(u2, x)]));
        assert forall|c: DeviceId| #[trigger] children_of(u2, x).contains(c) implies children_of(s, x).contains(c) by {
            assert(children_of(u, x).contains(c));
        }
        assert forall|c: DeviceId| #[trigger] children_of(s, x).contains(c) && !children_of(u2, x).contains(c)
            implies has_id(s, c.0) && !has_id(u2, c.0) by {
            if children_of(u, x).contains(c) {
                assert(j == pi);
                assert(c.0 == id);
            }
        }
    }
    lemma_pos_of_unique(u2, pi);
}

/// A list keeps its own records.
proof fn lemma_kept_refl(s: Seq<Device>)
    ensures
        kept_records(s, s),
        forall|id: u64| #[trigger] removed_within(s, s, id),
        forall|id: u64, done: int| #[trigger] removal_closed(s, s, id, done),
{
    assert forall|x: u64| #![trigger has_id(s, x)] has_id(s, x) implies same_but_children(s[pos_of(s, x)], s[pos_of(s, x)]) by {
        let d = s[pos_of(s, x)];
        assert(d == Device { children: d.children, ..d });
    }
}

/// In a list with increasing ids, the device at `k` is the one `pos_of` finds.
pub proof fn lemma_pos_of_unique(devs: Seq<Device>, k: int)
    requires
        0 <= k < devs.len(),
        forall|a: int, b: int| 0 <= a < b < devs.len() ==> (#[trigger] devs[a]).id.0 < (#[trigger] devs[b]).id.0,
    ensures
        pos_of(devs, devs[k].id.0) == k,
{
    let c = pos_of(devs, devs[k].id.0);
    assert(devs[k].id.0 == devs[k].id.0);
    if c < k {
        assert(devs[c].id.0 < devs[k].id.0);
    } else if c > k {
        assert(devs[k].id.0 < devs[c].id.0);
    }
}

/// Storing `dv` into `before` (replacing its id or inserting it), where `before`
/// matches `o` field by field, keeps every other device of `o`.
proof fn lemma_store_keeps(o: Seq<Device>, before: Seq<Device>, f: Seq<Device>, dv: Device)
    requires
        forall|a: int, b: int| 0 <= a < b < o.len() ==> (#[trigger] o[a]).id.0 < (#[trigger] o[b]).id.0,
        forall|a: int, b: int| 0 <= a < b < f.len() ==> (#[trigger] f[a]).id.0 < (#[trigger] f[b]).id.0,
        before.len() == o.len(),
        forall|k: int| 0 <= k < before.len() ==> #[trigger] before[k].id == o[k].id,
        forall|k: int| 0 <= k < before.len() ==> same_fields(#[trigger] before[k], o[k]),
        has_id(before, dv.id.0) ==> f == before.update(pos_of(before, dv.id.0), dv),
        !has_id(before, dv.id.0) ==> exists|p: int| 0 <= p <= before.len() && f == before.insert(p, dv),
    ensures
        others_kept(o, f, dv.id.0),
{
    reveal(others_kept);
    assert forall|j: u64| #![trigger has_id(o, j)] has_id(o, j) && j != dv.id.0 implies has_id(f, j) && same_fields(
        f[pos_of(f, j)],
        o[pos_of(o, j)],
    ) by {
        let k = pos_of(o, j);
        lemma_pos_of_unique(o, k);
        assert(before[k].id.0 == j);
        let fk: int = if has_id(before, dv.id.0) {
            k
        } else {
            let p = choose|p: int| 0 <= p <= before.len() && f == before.insert(p, dv);
            if k < p {
                k
            } else {
                k + 1
            }
        };
        assert(f[fk] == before[k]);
        lemma_pos_of_unique(f, fk);
    }
}

/// Every device but the one at `i` is unchanged, as is that device's id.
pub open spec fn only_changed(old_d: Seq<Device>, new_d: Seq<Device>, i: int) -> bool {
    &&& new_d.len() == old_d.len()
    &&& forall|k: int| 0 <= k < old_d.len() && k != i ==> #[trigger] new_d[k] == old_d[k]
    &&& new_d[i].id == old_d[i].id
}

/// The tree line of a device: prefix, connector, name, `[bus:class]` and state.
pub open spec fn tree_line(d: Device, prefix: Seq<char>, is_last: bool) -> Seq<char> {
    prefix + (if is_last { "└── "@ } else { "├── "@ }) + d.name@ + " ["@ + bus_name(d.bus) + ":"@
        + class_name(d.class) + "] "@ + state_name(d.state)
}

/// The name of a device state.
pub open spec fn state_name(s: DeviceState) -> Seq<char> {
    match s {
        DeviceState::Discovered => "Discovered"@,
        DeviceState::Registered => "Registered"@,
        DeviceState::Bound => "Bound"@,
        DeviceState::Ready => "Ready"@,
        DeviceState::Suspended => "Suspended"@,
        DeviceState::Error => "Error"@,
        DeviceState::Removed => "Removed"@,
    }
}

/// The prefix of a device's children's lines.
pub open spec fn child_prefix(prefix: Seq<char>, is_last: bool) -> Seq<char> {
    prefix + if is_last { "    "@ } else { "│   "@ }
}

/// The lines of the subtree under `id`, at most `fuel` levels deep.
pub open spec fn subtree_lines(devs: Seq<Device>, id: u64, prefix: Seq<char>, is_last: bool, fuel: nat) -> Seq<Seq<char>>
    decreases fuel, 0nat, 0int,
{
    if fuel == 0 || !has_id(devs, id) {
        Seq::empty()
    } else {
        let d = devs[pos_of(devs, id)];
        seq![tree_line(d, prefix, is_last)] + children_lines(devs, d.children@, 0, child_prefix(prefix, is_last), (fuel - 1) as nat)
    }
}

/// The lines of the subtrees under `children[k..]`, the last child marked last.
pub open spec fn children_lines(devs: Seq<Device>, children: Seq<DeviceId>, k: nat, prefix: Seq<char>, fuel: nat) -> Seq<Seq<char>>
    decreases fuel, 1nat, children.len() - k,
{
    if k >= children.len() {
        Seq::empty()
    } else {
        subtree_lines(devs, children[k as int].0, prefix, k == children.len() - 1, fuel)
            + children_lines(devs, children, k + 1, prefix, fuel)
    }
}

/// The text of each line.
pub open spec fn lines_view(v: Seq<String>) -> Seq<Seq<char>> {
    v.map_values(|s: String| s@)
}

impl DeviceManager {
    /// Ids strictly increase along the list.
    pub open spec fn wf(&self) -> bool {
        forall|i: int, j: int| 0 <= i < j < self.devices@.len() ==> (#[trigger] self.devices@[i]).id.0 < (#[trigger] self.devices@[j]).id.0
    }

    /// A manager holding the root device alone, with the next id from `ids`
    pub fn new(ids: &mut DeviceIdAllocator) -> (dm: DeviceManager)
        ensures
            dm.wf(),
            dm.devices@.len() == 1,
            dm.devices@[0].id.0 == old(ids).next,
            dm.devices@[0].name@ == "root"@,
            dm.devices@[0].class == DeviceClass::Root,
            dm.devices@[0].bus == BusType::Root,
            dm.devices@[0].parent is None,
            dm.devices@[0].children@.len() == 0,
            dm.root == Some(DeviceId(old(ids).next)),
            dm.next_driver_id == 1,
            dm.drivers@ == Map::<u32, DriverInfo>::empty(),
            final(ids).next == old(ids).next.wrapping_add(1),
    {
        let root_id = alloc_device_id(ids);
        let root = Device::new(root_id, "root", DeviceClass::Root, BusType::Root, None);
        let mut devices: Vec<Device> = Vec::new();
        devices.push(root);
        DeviceManager { devices, root: Some(root_id), drivers: BTreeMap::new(), next_driver_id: 1 }
    }

    /// Get root device ID
    pub fn root(&self) -> (r: Option<DeviceId>)
        ensures
            r == self.root,
    {
        self.root
    }

    fn find(&self, id: DeviceId) -> (r: Option<usize>)
        requires
            self.wf(),
        ensures
            match r {
                Some(i) => i < self.devices@.len() && self.devices@[i as int].id == id && has_id(self.devices@, id.0)
                    && pos_of(self.devices@, id.0) == i,
                None => !has_id(self.devices@, id.0),
            },
    {
        let mut i: usize = 0;
        while i < self.devices.len()
            invariant
                i <= self.devices@.len(),
                self.wf(),
                forall|k: int| 0 <= k < i ==> (#[trigger] self.devices@[k]).id.0 != id.0,
            decreases self.devices@.len() - i,
        {
            if self.devices[i].id.0 == id.0 {
                proof {
                    let c = choose|k: int| 0 <= k < self.devices@.len() && (#[trigger] self.devices@[k]).id.0 == id.0;
                    if c > i {
                        assert(self.devices@[i as int].id.0 < self.devices@[c].id.0);
                    }
                }
                return Some(i);
            }
            i = i + 1;
        }
        None
    }

    /// Put `device` in its place by id, replacing one with the same id.
    fn store(&mut self, device: Device)
        requires
            old(self).wf(),
        ensures
            final(self).wf(),
            final(self).root == old(self).root,
            final(self).next_driver_id == old(self).next_driver_id,
            final(self).drivers@ == old(self).drivers@,
            has_id(old(self).devices@, device.id.0) ==> final(self).devices@
                == old(self).devices@.update(pos_of(old(self).devices@, device.id.0), device),
            !has_id(old(self).devices@, device.id.0) ==> exists|p: int| 0 <= p <= old(self).devices@.len()
                && final(self).devices@ == old(self).devices@.insert(p, device),
    {
        let key = device.id.0;
        let ghost old_d = self.devices@;
        let mut i: usize = 0;
        while i < self.devices.len() && self.devices[i].id.0 < key
            invariant
                i <= self.devices@.len(),
                self.devices@ == old_d,
                self.wf(),
                forall|k: int| 0 <= k < i ==> (#[trigger] self.devices@[k]).id.0 < key,
            decreases self.devices@.len() - i,
        {
            i = i + 1;
        }
        if i < self.devices.len() && self.devices[i].id.0 == key {
            proof {
                let c = choose|k: int| 0 <= k < old_d.len() && (#[trigger] old_d[k]).id.0 == key;
                if c < i {
                } else if c > i {
                    assert(old_d[i as int].id.0 < old_d[c].id.0);
                }
            }
            self.devices.set(i, device);
            proof {
                assert forall|a: int, b: int| 0 <= a < b < self.devices@.len()
                    implies (#[trigger] self.devices@[a]).id.0 < (#[trigger] self.devices@[b]).id.0 by {
                    assert(old_d[a].id.0 < old_d[b].id.0);
                }
            }
        } else {
            self.devices.insert(i, device);
            proof {
                let at = i as int;
                assert forall|a: int, b: int| 0 <= a < b < self.devices@.len()
                    implies (#[trigger] self.devices@[a]).id.0 < (#[trigger] self.devices@[b]).id.0 by {
                    if b < at {
                        assert(old_d[a].id.0 < old_d[b].id.0);
                    } else if b > at && a > at {
                        assert(old_d[a - 1].id.0 < old_d[b - 1].id.0);
                    } else if b > at && a < at {
                        assert(old_d[a].id.0 < old_d[b - 1].id.0);
                    } else if a == at && b - 1 > at {
                        assert(old_d[at].id.0 < old_d[b - 1].id.0);
                    }
                }
                assert forall|k: int| 0 <= k < old_d.len() implies (#[trigger] old_d[k]).id.0 != key by {
                    if k > at {
                        assert(old_d[at].id.0 < old_d[k].id.0);
                    }
                }
            }
        }
    }

    /// Register a device under its id: with no parent given it hangs under the root;
    /// it is added to its parent's children when the parent is known
    #[verifier::rlimit(40)]
    pub fn register_device(&mut self, device: Device) -> (id: DeviceId)
        requires
            old(self).wf(),
        ensures
            final(self).wf(),
            id == device.id,
            has_id(final(self).devices@, id.0),
            ({
                let d = final(self).devices@[pos_of(final(self).devices@, id.0)];
                &&& d.name@ == device.name@
                &&& d.class == device.class
                &&& d.bus == device.bus
                &&& d.parent == (if device.parent is None { old(self).root } else { device.parent })
            }),
            final(self).devices@[pos_of(final(self).devices@, id.0)] == (Device {
                parent: (if device.parent is None { old(self).root } else { device.parent }),
                ..device
            }),
            final(self).root == old(self).root,
            final(self).drivers@ == old(self).drivers@,
            forall|j: u64| has_id(old(self).devices@, j) ==> #[trigger] has_id(final(self).devices@, j),
            others_kept(old(self).devices@, final(self).devices@, id.0),
    {
        let mut device = device;
        let id = device.id;
        if device.parent.is_none() {
            device.parent = self.root;
        }
        match device.parent {
            Some(parent_id) => {
                match self.find(parent_id) {
                    Some(pi) => {
                        let mut parent = self.devices.remove(pi);
                        parent.children.push(id);
                        let ghost old_d = old(self).devices@;
                        self.devices.insert(pi, parent);
                        proof {
                            assert forall|k: int| 0 <= k < self.devices@.len() implies same_fields(
                                #[trigger] self.devices@[k],
                                old_d[k],
                            ) by {}
                            assert forall|a: int, b: int| 0 <= a < b < self.devices@.len()
                                implies (#[trigger] self.devices@[a]).id.0 < (#[trigger] self.devices@[b]).id.0 by {
                                assert(old_d[a].id.0 < old_d[b].id.0);
                            }
                        }
                    },
                    None => {},
                }
            },
            None => {},
        }
        let ghost dv = device;
        let ghost before = self.devices@;
        assert forall|k: int| 0 <= k < before.len() implies #[trigger] before[k].id == old(self).devices@[k].id by {}
        assert forall|k: int| 0 <= k < before.len() implies same_fields(#[trigger] before[k], old(self).devices@[k]) by {}
        assert(before.len() == old(self).devices@.len());
        self.store(device);
        proof {
            let f = self.devices@;
            assert forall|j: u64| has_id(old(self).devices@, j) implies #[trigger] has_id(f, j) by {
                let k = choose|k: int| 0 <= k < old(self).devices@.len() && (#[trigger] old(self).devices@[k]).id.0 == j;
                assert(before[k].id.0 == j);
                if has_id(before, id.0) {
                    let pp = pos_of(before, id.0);
                    if k == pp {
                        assert(f[k] == dv);
                    } else {
                        assert(f[k] == before[k]);
                    }
                } else {
                    let p = choose|p: int| 0 <= p <= before.len() && f == before.insert(p, dv);
                    if k < p {
                        assert(f[k] == before[k]);
                    } else {
                        assert(f[k + 1] == before[k]);
                    }
                }
            }
            let q: int = if has_id(before, id.0) {
                pos_of(before, id.0)
            } else {
                choose|p: int| 0 <= p <= before.len() && f == before.insert(p, dv)
            };
            assert(f[q] == dv);
            assert(has_id(f, id.0));
            let c = pos_of(f, id.0);
            if c < q {
                assert(f[c].id.0 < f[q].id.0);
            } else if c > q {
                assert(f[q].id.0 < f[c].id.0);
            }
            lemma_store_keeps(old(self).devices@, before, f, dv);
        }
        id
    }

    /// `children` without `id`, in order.
    fn without_child(children: &Vec<DeviceId>, id: DeviceId) -> (r: Vec<DeviceId>)
        ensures
            r@ == children@.filter(|c: DeviceId| c.0 != id.0),
            forall|c: DeviceId| #[trigger] r@.contains(c) <==> children@.contains(c) && c.0 != id.0,
    {
        let mut r: Vec<DeviceId> = Vec::new();
        let mut i: usize = 0;
        while i < children.len()
            invariant
                i <= children@.len(),
                r@ == children@.subrange(0, i as int).filter(|c: DeviceId| c.0 != id.0),
            decreases children@.len() - i,
        {
            proof {
                let s = children@.subrange(0, i as int + 1);
                assert(s.drop_last() =~= children@.subrange(0, i as int));
                reveal(Seq::filter);
            }
            if children[i].0 != id.0 {
                r.push(children[i]);
            }
            i = i + 1;
        }
        assert(children@.subrange(0, children@.len() as int) =~= children@);
        proof {
            let pred = |c: DeviceId| c.0 != id.0;
            assert(r@ == children@.filter(pred));
            assert forall|c: DeviceId| #[trigger] r@.contains(c) <==> children@.contains(c) && c.0 != id.0 by {
                if r@.contains(c) {
                    children@.lemma_filter_contains_rev(pred, c);
                    let j = choose|j: int| 0 <= j < r@.len() && r@[j] == c;
                    children@.lemma_filter_pred(pred, j);
                }
                if children@.contains(c) && c.0 != id.0 {
                    let j = choose|j: int| 0 <= j < children@.len() && children@[j] == c;
                    children@.lemma_filter_contains(pred, j);
                }
            }
        }
        r
    }

    /// Unregister a device: it leaves its parent's children and the tree, and so,
    /// one after another, do its children and theirs
    pub fn unregister_device(&mut self, id: DeviceId) -> (r: Option<Device>)
        requires
            old(self).wf(),
        ensures
            final(self).wf(),
            final(self).root == old(self).root,
            final(self).drivers@ == old(self).drivers@,
            final(self).devices@.len() <= old(self).devices@.len(),
            kept_records(old(self).devices@, final(self).devices@),
            removed_within(old(self).devices@, final(self).devices@, id.0),
            removal_closed(old(self).devices@, final(self).devices@, id.0, children_of(old(self).devices@, id.0).len() as int),
            !has_id(old(self).devices@, id.0) ==> r is None && final(self).devices@ == old(self).devices@,
            has_id(old(self).devices@, id.0) ==> r == Some(old(self).devices@[pos_of(old(self).devices@, id.0)])
                && subtree_removed(old(self).devices@, final(self).devices@, id.0)
                && match old(self).devices@[pos_of(old(self).devices@, id.0)].parent {
                    Some(p) => !children_of(final(self).devices@, p.0).contains(id),
                    None => true,
                },
        decreases old(self).devices@.len(),
    {
        let i = match self.find(id) {
            Some(i) => i,
            None => {
                proof {
                    lemma_kept_refl(self.devices@);
                }
                return None;
            },
        };
        let ghost s0 = self.devices@;
        let device = self.devices.remove(i);
        proof {
            lemma_take_out(s0, i as int);
            assert forall|a: int, b: int| 0 <= a < b < self.devices@.len()
                implies (#[trigger] self.devices@[a]).id.0 < (#[trigger] self.devices@[b]).id.0 by {
                let a0 = if a < i { a } else { a + 1 };
                let b0 = if b < i { b } else { b + 1 };
                assert(s0[a0].id.0 < s0[b0].id.0);
            }
            assert(children_of(s0, id.0) == device.children@);
        }
        match device.parent {
            Some(parent_id) => {
                match self.find(parent_id) {
                    Some(pi) => {
                        let ghost prev = self.devices@;
                        let mut parent = self.devices.remove(pi);
                        parent.children = Self::without_child(&parent.children, id);
                        self.devices.insert(pi, parent);
                        proof {
                            assert(self.devices@ =~= prev.update(pi as int, self.devices@[pi as int]));
                            lemma_drop_from_parent(s0, prev, self.devices@, id.0, pi as int);
                            assert forall|a: int, b: int| 0 <= a < b < self.devices@.len()
                                implies (#[trigger] self.devices@[a]).id.0 < (#[trigger] self.devices@[b]).id.0 by {
                                assert(prev[a].id.0 < prev[b].id.0);
                            }
                        }
                    },
                    None => {},
                }
            },
            None => {},
        }
        let mut k: usize = 0;
        while k < device.children.len()
            invariant
                self.wf(),
                self.root == old(self).root,
                self.drivers@ == old(self).drivers@,
                self.devices@.len() < old(self).devices@.len(),
                s0 == old(self).devices@,
                has_id(s0, id.0),
                device == s0[pos_of(s0, id.0)],
                children_of(s0, id.0) == device.children@,
                k <= device.children@.len(),
                !has_id(self.devices@, id.0),
                kept_records(s0, self.devices@),
                removed_within(s0, self.devices@, id.0),
                removal_closed(s0, self.devices@, id.0, k as int),
                match device.parent {
                    Some(p) => !children_of(self.devices@, p.0).contains(id),
                    None => true,
                },
            decreases device.children@.len() - k,
        {
            let ghost before = self.devices@;
            let c = device.children[k];
            self.unregister_device(c);
            proof {
                if has_id(before, c.0) {
                    let p = seq![c.0];
                    assert(is_path(before, c.0, p));
                    assert(in_subtree(before, c.0, c.0));
                }
                lemma_remove_child_step(s0, before, self.devices@, id.0, k as int);
                match device.parent {
                    Some(p) => {
                        if children_of(self.devices@, p.0).contains(id) {
                            assert(has_id(self.devices@, p.0));
                        }
                    },
                    None => {},
                }
            }
            k = k + 1;
        }
        proof {
            assert forall|x: u64| #![trigger has_id(s0, x)] has_id(s0, x)
                implies (has_id(self.devices@, x) <==> !in_subtree(s0, id.0, x)) by {
                if in_subtree(s0, id.0, x) {
                    let p = choose|p: Seq<u64>| #[trigger] is_path(s0, id.0, p) && p.last() == x;
                    lemma_subtree_gone(s0, self.devices@, id.0, p);
                }
            }
        }
        Some(device)
    }

    fn print_device_tree(&self, id: DeviceId, prefix: &String, is_last: bool, fuel: usize, out: &mut Vec<String>)
        requires
            self.wf(),
        ensures
            lines_view(final(out)@) == lines_view(old(out)@) + subtree_lines(self.devices@, id.0, prefix@, is_last, fuel as nat),
        decreases fuel, 0nat, 0int,
    {
        if fuel == 0 {
            assert(lines_view(out@) + Seq::<Seq<char>>::empty() =~= lines_view(out@));
            return;
        }
        match self.find(id) {
            None => {
                assert(lines_view(out@) + Seq::<Seq<char>>::empty() =~= lines_view(out@));
            },
            Some(i) => {
                let device = &self.devices[i];
                let mut line = String::new();
                push_str(&mut line, prefix.as_str());
                push_str(&mut line, if is_last { "└── " } else { "├── " });
                push_str(&mut line, device.name.as_str());
                push_str(&mut line, " [");
                push_str(&mut line, device.bus.name());
                push_str(&mut line, ":");
                push_str(&mut line, device.class.name());
                push_str(&mut line, "] ");
                push_str(&mut line, device.state.name());
                assert(line@ =~= tree_line(*device, prefix@, is_last));
                let ghost before = out@;
                out.push(line);
                assert(lines_view(out@) =~= lines_view(before).push(tree_line(*device, prefix@, is_last)));
                let mut child_prefix = String::new();
                push_str(&mut child_prefix, prefix.as_str());
                push_str(&mut child_prefix, if is_last { "    " } else { "│   " });
                let ghost mid = out@;
                self.print_children(&device.children, 0, &child_prefix, fuel - 1, out);
                assert(lines_view(out@) =~= lines_view(old(out)@) + subtree_lines(self.devices@, id.0, prefix@, is_last, fuel as nat));
            },
        }
    }

    fn print_children(&self, children: &Vec<DeviceId>, k: usize, prefix: &String, fuel: usize, out: &mut Vec<String>)
        requires
            self.wf(),
            k <= children@.len(),
        ensures
            lines_view(final(out)@) == lines_view(old(out)@) + children_lines(self.devices@, children@, k as nat, prefix@, fuel as nat),
        decreases fuel, 1nat, children@.len() - k,
    {
        if k >= children.len() {
            assert(lines_view(out@) + Seq::<Seq<char>>::empty() =~= lines_view(out@));
            return;
        }
        let is_last = k == children.len() - 1;
        self.print_device_tree(children[k], prefix, is_last, fuel, out);
        self.print_children(children, k + 1, prefix, fuel, out);
        assert(lines_view(out@) =~= lines_view(old(out)@) + children_lines(self.devices@, children@, k as nat, prefix@, fuel as nat));
    }

    /// The lines of the device tree drawing, from the root down (each device at most
    /// as many levels deep as there are devices)
    pub fn print_tree(&self) -> (v: Vec<String>)
        requires
            self.wf(),
        ensures
            lines_view(v@) == match self.root {
                Some(r) => subtree_lines(self.devices@, r.0, Seq::empty(), true, self.devices@.len()),
                None => Seq::empty(),
            },
    {
        let mut out: Vec<String> = Vec::new();
        match self.root {
            Some(root_id) => {
                let prefix = String::new();
                assert(lines_view(out@) =~= Seq::<Seq<char>>::empty());
                self.print_device_tree(root_id, &prefix, true, self.devices.len(), &mut out);
                assert(lines_view(out@) =~= subtree_lines(self.devices@, root_id.0, Seq::empty(), true, self.devices@.len()));
            },
            None => {
                assert(lines_view(out@) =~= Seq::<Seq<char>>::empty());
            },
        }
        out
    }

    /// Get a device by ID
    pub fn get_device(&self, id: DeviceId) -> (r: Option<&Device>)
        requires
            self.wf(),
        ensures
            has_id(self.devices@, id.0) ==> r == Some(&self.devices@[pos_of(self.devices@, id.0)]),
            !has_id(self.devices@, id.0) ==> r is None,
    {
        match self.find(id) {
            Some(i) => Some(&self.devices[i]),
            None => None,
        }
    }

    /// The device with id `id`, to change in place; the manager holds what is written
    /// through it.
    pub fn get_device_mut(&mut self, id: DeviceId) -> (r: Option<&mut Device>)
        requires
            old(self).wf(),
        ensures
            final(self).root == old(self).root,
            final(self).drivers@ == old(self).drivers@,
            !has_id(old(self).devices@, id.0) ==> r is None && final(self).devices@ == old(self).devices@,
            has_id(old(self).devices@, id.0) ==> r is Some && *r->0 == old(self).devices@[pos_of(old(self).devices@, id.0)]
                && final(self).devices@ == old(self).devices@.update(pos_of(old(self).devices@, id.0), *final(r->0)),
    {
        match self.find(id) {
            Some(i) => Some(&mut self.devices[i]),
            None => None,
        }
    }

    /// Find devices by class, in id order
    pub fn find_by_class(&self, class: DeviceClass) -> (v: Vec<&Device>)
        ensures
            v@.len() == self.devices@.filter(|d: Device| d.class == class).len(),
            forall|i: int| 0 <= i < v@.len() ==> *(#[trigger] v@[i]) == self.devices@.filter(|d: Device| d.class == class)[i],
    {
        let mut v: Vec<&Device> = Vec::new();
        let mut i: usize = 0;
        while i < self.devices.len()
            invariant
                i <= self.devices@.len(),
                v@.len() == self.devices@.subrange(0, i as int).filter(|d: Device| d.class == class).len(),
                forall|k: int| 0 <= k < v@.len() ==> *(#[trigger] v@[k]) == self.devices@.subrange(0, i as int).filter(|d: Device| d.class == class)[k],
            decreases self.devices@.len() - i,
        {
            proof {
                let s = self.devices@.subrange(0, i as int + 1);
                assert(s.drop_last() =~= self.devices@.subrange(0, i as int));
                reveal(Seq::filter);
            }
            if self.devices[i].class == class {
                v.push(&self.devices[i]);
            }
            i = i + 1;
        }
        assert(self.devices@.subrange(0, self.devices@.len() as int) =~= self.devices@);
        v
    }

    /// Find devices by bus, in id order
    pub fn find_by_bus(&self, bus: BusType) -> (v: Vec<&Device>)
        ensures
            v@.len() == self.devices@.filter(|d: Device| d.bus == bus).len(),
            forall|i: int| 0 <= i < v@.len() ==> *(#[trigger] v@[i]) == self.devices@.filter(|d: Device| d.bus == bus)[i],
    {
        let mut v: Vec<&Device> = Vec::new();
        let mut i: usize = 0;
        while i < self.devices.len()
            invariant
                i <= self.devices@.len(),
                v@.len() == self.devices@.subrange(0, i as int).filter(|d: Device| d.bus == bus).len(),
                forall|k: int| 0 <= k < v@.len() ==> *(#[trigger] v@[k]) == self.devices@.subrange(0, i as int).filter(|d: Device| d.bus == bus)[k],
            decreases self.devices@.len() - i,
        {
            proof {
                let s = self.devices@.subrange(0, i as int + 1);
                assert(s.drop_last() =~= self.devices@.subrange(0, i as int));
                reveal(Seq::filter);
            }
            if self.devices[i].bus == bus {
                v.push(&self.devices[i]);
            }
            i = i + 1;
        }
        assert(self.devices@.subrange(0, self.devices@.len() as int) =~= self.devices@);
        v
    }

    /// Get all devices, in id order
    pub fn all_devices(&self) -> (v: Vec<&Device>)
        ensures
            v@.len() == self.devices@.len(),
            forall|i: int| 0 <= i < v@.len() ==> *(#[trigger] v@[i]) == self.devices@[i],
    {
        let mut v: Vec<&Device> = Vec::new();
        let mut i: usize = 0;
        while i < self.devices.len()
            invariant
                i <= self.devices@.len(),
                v@.len() == i,
                forall|k: int| 0 <= k < i ==> *(#[trigger] v@[k]) == self.devices@[k],
            decreases self.devices@.len() - i,
        {
            v.push(&self.devices[i]);
            i = i + 1;
        }
        v
    }

    /// Get device count
    pub fn device_count(&self) -> (n: usize)
        ensures
            n == self.devices@.len(),
    {
        self.devices.len()
    }

    /// Register a driver under the next driver ID
    pub fn register_driver(&mut self, info: DriverInfo) -> (id: DriverId)
        requires
            old(self).next_driver_id < u32::MAX,
        ensures
            id.0 == old(self).next_driver_id,
            final(self).next_driver_id == old(self).next_driver_id + 1,
            final(self).drivers@ == old(self).drivers@.insert(id.0, info),
            final(self).devices@ == old(self).devices@,
            final(self).root == old(self).root,
    {
        let id = DriverId(self.next_driver_id);
        self.next_driver_id = self.next_driver_id + 1;
        self.drivers.insert(id.0, info);
        id
    }

    /// Bind a registered driver to a device that has none
    pub fn bind_driver(&mut self, device_id: DeviceId, driver_id: DriverId) -> (r: Result<(), &'static str>)
        requires
            old(self).wf(),
        ensures
            final(self).wf(),
            final(self).drivers@ == old(self).drivers@,
            final(self).root == old(self).root,
            !has_id(old(self).devices@, device_id.0) ==> r == Err::<(), &'static str>("Device not found")
                && final(self).devices@ == old(self).devices@,
            has_id(old(self).devices@, device_id.0) ==> ({
                let i = pos_of(old(self).devices@, device_id.0);
                if old(self).devices@[i].driver is Some {
                    r == Err::<(), &'static str>("Device already has a driver") && final(self).devices@ == old(self).devices@
                } else if !old(self).drivers@.contains_key(driver_id.0) {
                    r == Err::<(), &'static str>("Driver not found") && final(self).devices@ == old(self).devices@
                } else {
                    &&& r is Ok
                    &&& only_changed(old(self).devices@, final(self).devices@, i)
                    &&& final(self).devices@[i] == (Device {
                        driver: Some(driver_id),
                        state: DeviceState::Bound,
                        ..old(self).devices@[i]
                    })
                }
            }),
    {
        let i = match self.find(device_id) {
            Some(i) => i,
            None => {
                return Err("Device not found");
            },
        };
        if self.devices[i].driver.is_some() {
            return Err("Device already has a driver");
        }
        if !self.drivers.contains_key(&driver_id.0) {
            return Err("Driver not found");
        }
        let mut device = self.devices.remove(i);
        device.driver = Some(driver_id);
        device.state = DeviceState::Bound;
        let ghost old_d = old(self).devices@;
        self.devices.insert(i, device);
        proof {
            assert(self.devices@ =~= old_d.update(i as int, self.devices@[i as int]));
            assert forall|a: int, b: int| 0 <= a < b < self.devices@.len()
                implies (#[trigger] self.devices@[a]).id.0 < (#[trigger] self.devices@[b]).id.0 by {
                assert(old_d[a].id.0 < old_d[b].id.0);
            }
        }
        Ok(())
    }

    /// Unbind driver from device
    pub fn unbind_driver(&mut self, device_id: DeviceId) -> (r: Result<(), &'static str>)
        requires
            old(self).wf(),
        ensures
            final(self).wf(),
            final(self).drivers@ == old(self).drivers@,
            final(self).root == old(self).root,
            !has_id(old(self).devices@, device_id.0) ==> r == Err::<(), &'static str>("Device not found")
                && final(self).devices@ == old(self).devices@,
            has_id(old(self).devices@, device_id.0) ==> ({
                let i = pos_of(old(self).devices@, device_id.0);
                &&& r is Ok
                &&& only_changed(old(self).devices@, final(self).devices@, i)
                &&& final(self).devices@[i].driver is None
                &&& final(self).devices@[i].state == DeviceState::Registered
                &&& final(self).devices@[i].children@ == old(self).devices@[i].children@
            }),
    {
        let i = match self.find(device_id) {
            Some(i) => i,
            None => {
                return Err("Device not found");
            },
        };
        let mut device = self.devices.remove(i);
        device.driver = None;
        device.state = DeviceState::Registered;
        let ghost old_d = old(self).devices@;
        self.devices.insert(i, device);
        proof {
            assert(self.devices@ =~= old_d.update(i as int, self.devices@[i as int]));
            assert forall|a: int, b: int| 0 <= a < b < self.devices@.len()
                implies (#[trigger] self.devices@[a]).id.0 < (#[trigger] self.devices@[b]).id.0 by {
                assert(old_d[a].id.0 < old_d[b].id.0);
            }
        }
        Ok(())
    }
}

/// Register a platform device under a fresh id
pub fn register_platform_device(dm: &mut DeviceManager, ids: &mut DeviceIdAllocator, name: &str, class: DeviceClass) -> (id: DeviceId)
    requires
        old(dm).wf(),
    ensures
        final(dm).wf(),
        id.0 == old(ids).next,
        final(ids).next == old(ids).next.wrapping_add(1),
        has_id(final(dm).devices@, id.0),
        ({
            let d = final(dm).devices@[pos_of(final(dm).devices@, id.0)];
            &&& d.name@ == name@
            &&& d.class == class
            &&& d.bus == BusType::Platform
            &&& d.parent == old(dm).root
        }),
{
    let id = alloc_device_id(ids);
    let device = Device::new(id, name, class, BusType::Platform, None);
    dm.register_device(device)
}

/// Register a VirtIO device under a fresh id
pub fn register_virtio_device(dm: &mut DeviceManager, ids: &mut DeviceIdAllocator, name: &str, class: DeviceClass) -> (id: DeviceId)
    requires
        old(dm).wf(),
    ensures
        final(dm).wf(),
        id.0 == old(ids).next,
        final(ids).next == old(ids).next.wrapping_add(1),
        has_id(final(dm).devices@, id.0),
        ({
            let d = final(dm).devices@[pos_of(final(dm).devices@, id.0)];
            &&& d.name@ == name@
            &&& d.class == class
            &&& d.bus == BusType::VirtIO
            &&& d.parent == old(dm).root
        }),
{
    let id = alloc_device_id(ids);
    let device = Device::new(id, name, class, BusType::VirtIO, None);
    dm.register_device(device)
}

} // verus!
