//! Input subsystem: a bounded queue of input events and the registry of input devices.
pub mod event;
pub mod keyboard;
pub mod keycode;
pub mod mouse;

use vstd::prelude::*;
use std::collections::VecDeque;
use event::InputEvent;

verus! {

/// Maximum events in queue
pub const MAX_EVENTS: usize = 256;

/// Input device info
#[derive(Debug, Clone, Copy)]
pub struct InputDeviceInfo {
    pub id: u32,
    pub name: &'static str,
    pub device_type: InputDeviceType,
}

/// Input device types
#[derive(Debug, Clone, Copy, PartialEq, Eq, Structural)]
pub enum InputDeviceType {
    Keyboard,
    Mouse,
    Touchpad,
    Touchscreen,
    Gamepad,
    Other,
}

/// The input subsystem's state: pending events, oldest first, and registered devices.
pub struct InputSystem {
    pub queue: VecDeque<InputEvent>,
    pub devices: Vec<InputDeviceInfo>,
}

/// The queue after one more event: when full, the oldest event is dropped first.
pub open spec fn queued(q: Seq<InputEvent>, e: InputEvent) -> Seq<InputEvent> {
    if q.len() >= MAX_EVENTS {
        q.subrange(1, q.len() as int).push(e)
    } else {
        q.push(e)
    }
}

/// The queue after the events `es`, in order.
pub open spec fn queued_all(q: Seq<InputEvent>, es: Seq<InputEvent>) -> Seq<InputEvent>
    decreases es.len(),
{
    if es.len() == 0 {
        q
    } else {
        queued(queued_all(q, es.drop_last()), es.last())
    }
}

/// Queueing `a` then `b` is queueing `a + b`.
pub proof fn lemma_queued_all_append(q: Seq<InputEvent>, a: Seq<InputEvent>, b: Seq<InputEvent>)
    ensures
        queued_all(queued_all(q, a), b) == queued_all(q, a + b),
    decreases b.len(),
{
    if b.len() == 0 {
        assert(a + b =~= a);
    } else {
        lemma_queued_all_append(q, a, b.drop_last());
        assert((a + b).drop_last() =~= a + b.drop_last());
        assert((a + b).last() == b.last());
    }
}

/// Queueing one event is queueing the sequence of it alone.
pub proof fn lemma_queued_all_one(q: Seq<InputEvent>, e: InputEvent)
    ensures
        queued_all(q, seq![e]) == queued(q, e),
{
    assert(seq![e].drop_last() =~= Seq::<InputEvent>::empty());
    assert(queued_all(q, seq![e].drop_last()) == q);
    assert(seq![e].last() == e);
}

impl InputSystem {
    /// No events, no devices.
    pub fn new() -> (s: InputSystem)
        ensures
            s.queue@.len() == 0,
            s.devices@.len() == 0,
    {
        InputSystem { queue: VecDeque::new(), devices: Vec::new() }
    }
}

/// Queue an input event, dropping the oldest when the queue is full
pub fn queue_event(input: &mut InputSystem, event: InputEvent)
    ensures
        final(input).queue@ == queued(old(input).queue@, event),
        final(input).devices@ == old(input).devices@,
{
    if input.queue.len() >= MAX_EVENTS {
        input.queue.pop_front();
    }
    input.queue.push_back(event);
    assert(input.queue@ =~= queued(old(input).queue@, event));
}

/// Take the oldest pending event
pub fn poll_event(input: &mut InputSystem) -> (r: Option<InputEvent>)
    ensures
        old(input).queue@.len() == 0 ==> r is None && final(input).queue@ == old(input).queue@,
        old(input).queue@.len() > 0 ==> r == Some(old(input).queue@[0])
            && final(input).queue@ == old(input).queue@.subrange(1, old(input).queue@.len() as int),
        final(input).devices@ == old(input).devices@,
{
    input.queue.pop_front()
}

/// Check if there are pending events
pub fn has_events(input: &InputSystem) -> (b: bool)
    ensures
        b == (input.queue@.len() > 0),
{
    input.queue.len() != 0
}

/// Get number of pending events
pub fn pending_count(input: &InputSystem) -> (n: usize)
    ensures
        n == input.queue@.len(),
{
    input.queue.len()
}

/// Register an input device; its id is its position in the registry
pub fn register_device(input: &mut InputSystem, name: &'static str, device_type: InputDeviceType) -> (id: u32)
    ensures
        id == old(input).devices@.len() as u32,
        final(input).devices@.len() == old(input).devices@.len() + 1,
        final(input).devices@.subrange(0, old(input).devices@.len() as int) == old(input).devices@,
        final(input).devices@.last().id == id,
        final(input).devices@.last().name == name,
        final(input).devices@.last().device_type == device_type,
        final(input).queue@ == old(input).queue@,
{
    let id = input.devices.len() as u32;
    input.devices.push(InputDeviceInfo { id, name, device_type });
    assert(input.devices@.subrange(0, old(input).devices@.len() as int) =~= old(input).devices@);
    id
}

/// Get list of input devices
pub fn list_devices(input: &InputSystem) -> (v: Vec<InputDeviceInfo>)
    ensures
        v@ == input.devices@,
{
    let mut v: Vec<InputDeviceInfo> = Vec::new();
    let mut i: usize = 0;
    while i < input.devices.len()
        invariant
            i <= input.devices@.len(),
            v@ == input.devices@.subrange(0, i as int),
        decreases input.devices@.len() - i,
    {
        v.push(input.devices[i]);
        i = i + 1;
        assert(v@ =~= input.devices@.subrange(0, i as int));
    }
    assert(v@ =~= input.devices@);
    v
}

} // verus!
