//! VirtIO input devices (keyboard, mouse): the device fills event buffers offered
//! on queue 0 with evdev-style events.
use vstd::prelude::*;
use super::mmio::{MmioDevice, RegWrite, device_at, QUEUE_NOTIFY, STATUS};
use super::queue::{VirtQueue, offered, used_backlog};
use super::gpu::{handshake_writes, queue_setup_writes, push_queue_setup};
use crate::drivers::input::{InputSystem, queue_event, queued_all, lemma_queued_all_append, lemma_queued_all_one};
use crate::drivers::input::event::{InputEvent, InputEventType};

verus! {

/// Device id of input devices.
pub const VIRTIO_INPUT_DEVICE_ID: u32 = 18;
/// Event buffers kept offered to the device.
pub const EVENT_BUFFER_COUNT: usize = 16;
/// Bytes of one event.
pub const EVENT_SIZE: u32 = 8;

/// An event as the device writes it.
#[derive(Debug, Clone, Copy, PartialEq, Eq, Structural)]
pub struct VirtioInputEvent {
    pub event_type: u16,
    pub code: u16,
    pub value: u32,
}

/// The kind of event an evdev type number names (unknown ones are `Misc`).
pub open spec fn event_type_of(t: u16) -> InputEventType {
    if t == 0 {
        InputEventType::Sync
    } else if t == 1 {
        InputEventType::Key
    } else if t == 2 {
        InputEventType::Relative
    } else if t == 3 {
        InputEventType::Absolute
    } else {
        InputEventType::Misc
    }
}

impl VirtioInputEvent {
    /// A zeroed event.
    pub fn zeroed() -> (e: VirtioInputEvent)
        ensures
            e == (VirtioInputEvent { event_type: 0, code: 0, value: 0 }),
    {
        VirtioInputEvent { event_type: 0, code: 0, value: 0 }
    }

    /// The input event this one stands for, stamped `timestamp`; the value is
    /// taken as signed.
    pub open spec fn spec_input_event(self, timestamp: u64) -> InputEvent {
        InputEvent {
            timestamp,
            event_type: event_type_of(self.event_type),
            code: self.code,
            value: self.value as i32,
        }
    }

    /// The input event this one stands for, stamped `timestamp`.
    pub fn to_input_event(&self, timestamp: u64) -> (e: InputEvent)
        ensures
            e == self.spec_input_event(timestamp),
    {
        let event_type = match self.event_type {
            0x00 => InputEventType::Sync,
            0x01 => InputEventType::Key,
            0x02 => InputEventType::Relative,
            0x03 => InputEventType::Absolute,
            _ => InputEventType::Misc,
        };
        InputEvent { timestamp, event_type, code: self.code, value: self.value as i32 }
    }
}

/// A VirtIO input device.
pub struct VirtioInput {
    pub mmio: MmioDevice,
    /// Queue 0: events from the device.
    pub event_queue: VirtQueue,
    /// Queue 1: status to the device.
    pub status_queue: VirtQueue,
    /// The event buffers, as the device last wrote them.
    pub event_buffers: Vec<VirtioInputEvent>,
    /// Physical address of each event buffer.
    pub event_addrs: Vec<u64>,
    pub ready: bool,
    pub name: &'static str,
}

/// The whole bring-up of an input device: the handshake, event queue 0 and status
/// queue 1 (64 descriptors each), a notification of queue 0 once the event
/// buffers are offered, then `DRIVER_OK`.
pub open spec fn input_init_writes(event_areas: (u64, u64, u64), status_areas: (u64, u64, u64)) -> Seq<RegWrite> {
    handshake_writes() + queue_setup_writes(0, 64, event_areas) + queue_setup_writes(1, 64, status_areas) + seq![
        RegWrite { offset: QUEUE_NOTIFY, value: 0 },
        RegWrite { offset: STATUS, value: 0x0F },
    ]
}

impl VirtioInput {
    /// Queues well formed; one address per event buffer.
    pub open spec fn wf(&self) -> bool {
        &&& self.event_queue.wf()
        &&& self.status_queue.wf()
        &&& self.event_addrs@.len() == self.event_buffers@.len()
    }

    /// An input device in the window at `base`, given its magic, version and
    /// device-id registers: fails when there is none or it is not an input device;
    /// a new one has two 64-descriptor queues, no event buffers, and is not ready.
    pub fn new(base: usize, name: &'static str, magic: u32, version: u32, device_id: u32) -> (r: Result<
        VirtioInput,
        &'static str,
    >)
        ensures
            device_at(base, 0, magic, version, device_id) is None ==> r == Err::<VirtioInput, &'static str>(
                "No VirtIO device at this address",
            ),
            device_at(base, 0, magic, version, device_id) is Some && device_id != VIRTIO_INPUT_DEVICE_ID ==> r
                == Err::<VirtioInput, &'static str>("Not a VirtIO input device"),
            device_at(base, 0, magic, version, device_id) is Some && device_id == VIRTIO_INPUT_DEVICE_ID ==> r is Ok
                && {
                let d = r->Ok_0;
                &&& d.wf()
                &&& d.mmio == device_at(base, 0, magic, version, device_id).unwrap()
                &&& d.event_queue.index == 0 && d.event_queue.size == 64 && d.event_queue.num_free == 64
                &&& d.event_queue.pending@.len() == 0
                &&& d.status_queue.index == 1 && d.status_queue.size == 64
                &&& d.event_buffers@.len() == 0
                &&& !d.ready
                &&& d.name == name
            },
    {
        let mmio = match MmioDevice::probe(base, magic, version, device_id) {
            Ok(m) => m,
            Err(e) => {
                return Err(e);
            },
        };
        if mmio.device_id() != VIRTIO_INPUT_DEVICE_ID {
            return Err("Not a VirtIO input device");
        }
        let event_queue = VirtQueue::new(0, 64);
        let status_queue = VirtQueue::new(1, 64);
        Ok(VirtioInput {
            mmio,
            event_queue,
            status_queue,
            event_buffers: Vec::new(),
            event_addrs: Vec::new(),
            ready: false,
            name,
        })
    }

    /// Brings the device up and gives the register writes to make, in order (see
    /// `input_init_writes`): negotiates no features, offers sixteen zeroed event
    /// buffers, device-written, at `event_buffer_addrs`, one per chain, and marks
    /// the device ready.
    pub fn init(
        &mut self,
        event_areas: (u64, u64, u64),
        status_areas: (u64, u64, u64),
        event_buffer_addrs: &[u64],
    ) -> (r: Result<Vec<RegWrite>, &'static str>)
        requires
            old(self).wf(),
            old(self).event_buffers@.len() == 0,
            old(self).event_queue.num_free >= EVENT_BUFFER_COUNT,
            event_buffer_addrs@.len() == EVENT_BUFFER_COUNT,
        ensures
            final(self).wf(),
            r is Ok && r->Ok_0@ == input_init_writes(event_areas, status_areas),
            final(self).ready,
            final(self).mmio == (MmioDevice { features: 0, ..old(self).mmio }),
            final(self).event_buffers@.len() == EVENT_BUFFER_COUNT,
            forall|i: int| 0 <= i < EVENT_BUFFER_COUNT ==> #[trigger] final(self).event_buffers@[i] == (VirtioInputEvent {
                event_type: 0,
                code: 0,
                value: 0,
            }) && final(self).event_addrs@[i] == event_buffer_addrs@[i],
            final(self).event_queue.num_free == old(self).event_queue.num_free - EVENT_BUFFER_COUNT,
            final(self).event_queue.pending@.len() == old(self).event_queue.pending@.len() + EVENT_BUFFER_COUNT,
            final(self).status_queue == old(self).status_queue,
            final(self).name == old(self).name,
    {
        let mut w: Vec<RegWrite> = Vec::new();
        w.push(self.mmio.reset());
        w.push(self.mmio.set_status(0x01));
        w.push(self.mmio.set_status(0x03));
        let fw = self.mmio.write_features(0);
        proof {
            assert(super::mmio::low_half(0) == 0 && super::mmio::high_half(0) == 0);
        }
        w.push(fw[0]);
        w.push(fw[1]);
        w.push(fw[2]);
        w.push(fw[3]);
        w.push(self.mmio.set_status(0x0B));
        proof {
            assert(w@ =~= handshake_writes());
        }
        push_queue_setup(&mut w, &self.mmio, 0, 64, event_areas);
        push_queue_setup(&mut w, &self.mmio, 1, 64, status_areas);
        self.setup_event_buffers(event_buffer_addrs);
        w.push(self.mmio.notify(0));
        w.push(self.mmio.set_status(0x0F));
        self.ready = true;
        proof {
            assert(w@ =~= input_init_writes(event_areas, status_areas));
        }
        Ok(w)
    }

    /// Adds one zeroed event buffer per address and offers each on the event queue.
    fn setup_event_buffers(&mut self, addrs: &[u64])
        requires
            old(self).wf(),
            old(self).event_buffers@.len() == 0,
            old(self).event_queue.num_free >= addrs@.len(),
        ensures
            final(self).wf(),
            final(self).event_buffers@.len() == addrs@.len(),
            forall|i: int| 0 <= i < addrs@.len() ==> #[trigger] final(self).event_buffers@[i] == (VirtioInputEvent {
                event_type: 0,
                code: 0,
                value: 0,
            }) && final(self).event_addrs@[i] == addrs@[i],
            final(self).event_queue.num_free == old(self).event_queue.num_free - addrs@.len(),
            final(self).event_queue.pending@.len() == old(self).event_queue.pending@.len() + addrs@.len(),
            final(self).status_queue == old(self).status_queue,
            final(self).mmio == old(self).mmio,
            final(self).ready == old(self).ready,
            final(self).name == old(self).name,
    {
        self.event_addrs = Vec::new();
        let mut i: usize = 0;
        while i < addrs.len()
            invariant
                i <= addrs@.len(),
                self.wf(),
                self.event_buffers@.len() == i,
                forall|k: int| 0 <= k < i ==> #[trigger] self.event_buffers@[k] == (VirtioInputEvent {
                    event_type: 0,
                    code: 0,
                    value: 0,
                }) && self.event_addrs@[k] == addrs@[k],
                self.event_queue.num_free == old(self).event_queue.num_free - i,
                old(self).event_queue.num_free >= addrs@.len(),
                self.event_queue.pending@.len() == old(self).event_queue.pending@.len() + i,
                self.status_queue == old(self).status_queue,
                self.mmio == old(self).mmio,
                self.ready == old(self).ready,
                self.name == old(self).name,
            decreases addrs@.len() - i,
        {
            self.event_buffers.push(VirtioInputEvent::zeroed());
            self.event_addrs.push(addrs[i]);
            let chain = [(addrs[i], EVENT_SIZE, true)];
            let _ = self.event_queue.add_buffer(&chain);
            i = i + 1;
        }
    }

    /// The next event the device reported, stamped `timestamp`: when the device
    /// is ready and has returned an event buffer whose index (the chain head) names
    /// one of ours, that buffer's event, the buffer being offered again; otherwise
    /// none. The caller notifies queue 0 when an event comes back.
    pub fn poll(&mut self, timestamp: u64) -> (r: Option<InputEvent>)
        requires
            old(self).wf(),
        ensures
            final(self).wf(),
            final(self).event_buffers@ == old(self).event_buffers@,
            final(self).event_addrs@ == old(self).event_addrs@,
            final(self).ready == old(self).ready && final(self).name == old(self).name,
            final(self).mmio == old(self).mmio && final(self).status_queue == old(self).status_queue,
            final(self).event_queue.used == old(self).event_queue.used,
            !old(self).ready ==> r.is_none() && final(self).event_queue == old(self).event_queue,
            old(self).ready && old(self).event_queue.last_used_idx == old(self).event_queue.used.idx ==> r.is_none()
                && final(self).event_queue == old(self).event_queue,
            old(self).ready && old(self).event_queue.last_used_idx != old(self).event_queue.used.idx ==> {
                let q = old(self).event_queue;
                let id = q.used.ring@[(q.last_used_idx % q.size) as int].id as u16;
                &&& used_backlog(final(self).event_queue) == used_backlog(q) - 1
                &&& id < old(self).event_buffers@.len() ==> r == Some(
                    old(self).event_buffers@[id as int].spec_input_event(timestamp),
                )
                &&& id >= old(self).event_buffers@.len() ==> r.is_none()
            },
    {
        if !self.ready {
            return None;
        }
        match self.event_queue.poll_used() {
            Some((idx, _len)) => {
                if (idx as usize) < self.event_buffers.len() {
                    let event = self.event_buffers[idx as usize].to_input_event(timestamp);
                    let chain = [(self.event_addrs[idx as usize], EVENT_SIZE, true)];
                    let ghost q1 = self.event_queue;
                    let _ = self.event_queue.add_buffer(&chain);
                    Some(event)
                } else {
                    None
                }
            },
            None => None,
        }
    }

    /// The device's name.
    pub fn name(&self) -> (n: &'static str)
        ensures
            n == self.name,
    {
        self.name
    }
}

/// Whether any input device was brought up.
pub fn is_available(devices: &Vec<VirtioInput>) -> (b: bool)
    ensures
        b == (devices@.len() > 0),
{
    devices.len() > 0
}

/// Queues, stamped `timestamp`, every event each device has reported, device by
/// device and in the order reported.
pub fn poll_all(devices: &mut Vec<VirtioInput>, input: &mut InputSystem, timestamp: u64)
    requires
        forall|i: int| 0 <= i < old(devices)@.len() ==> (#[trigger] old(devices)@[i]).wf(),
    ensures
        final(devices)@.len() == old(devices)@.len(),
        forall|i: int| 0 <= i < final(devices)@.len() ==> (#[trigger] final(devices)@[i]).wf()
            && final(devices)@[i].name == old(devices)@[i].name && final(devices)@[i].ready == old(devices)@[i].ready,
        exists|events: Seq<InputEvent>| final(input).queue@ == queued_all(old(input).queue@, events),
        final(input).devices@ == old(input).devices@,
{
    let ghost n = devices@.len();
    let ghost orig = devices@;
    let mut done: Vec<VirtioInput> = Vec::new();
    let ghost mut events: Seq<InputEvent> = Seq::empty();
    proof {
        assert(queued_all(input.queue@, events) == input.queue@);
    }
    let ghost q0 = input.queue@;
    while devices.len() > 0
        invariant
            done@.len() + devices@.len() == n,
            forall|i: int| 0 <= i < done@.len() ==> (#[trigger] done@[i]).wf() && done@[i].name == orig[i].name
                && done@[i].ready == orig[i].ready,
            forall|i: int| 0 <= i < devices@.len() ==> (#[trigger] devices@[i]).wf() && devices@[i] == orig[i + done@.len()],
            input.queue@ == queued_all(q0, events),
            q0 == old(input).queue@,
            input.devices@ == old(input).devices@,
            orig == old(devices)@,
            n == orig.len(),
        decreases devices@.len(),
    {
        let mut dev = devices.remove(0);
        proof {
            assert(dev == orig[done@.len() as int]);
        }
        let mut more = true;
        while more
            invariant
                dev.wf(),
                dev.name == orig[done@.len() as int].name && dev.ready == orig[done@.len() as int].ready,
                input.queue@ == queued_all(q0, events),
                input.devices@ == old(input).devices@,
            decreases used_backlog(dev.event_queue), (if more { 1int } else { 0int }),
        {
            match dev.poll(timestamp) {
                Some(event) => {
                    queue_event(input, event);
                    proof {
                        lemma_queued_all_one(queued_all(q0, events), event);
                        lemma_queued_all_append(q0, events, seq![event]);
                        events = events + seq![event];
                    }
                },
                None => {
                    more = false;
                },
            }
        }
        done.push(dev);
    }
    *devices = done;
}

} // verus!
