//! Inter-process communication: endpoints, message formats and the synchronous
//! call/wait/reply protocol.
//!
//! The protocol's decisions are made here over an explicit [`IpcState`]; what the
//! scheduler must do next (switch, unblock, block) is handed back as an action for
//! the caller to carry out.
pub mod endpoint;
pub mod message;

use vstd::prelude::*;
use std::collections::BTreeMap;
use endpoint::{Endpoint, MAX_MESSAGE_SIZE, copied_into, copy_prefix, pending_message};

verus! {

broadcast use vstd::std_specs::btree::group_btree_axioms;

/// Thread identifier
#[derive(Debug, Clone, Copy, PartialEq, Eq, Structural)]
pub struct ThreadId(pub u64);

/// Endpoint ID type
#[derive(Debug, Clone, Copy, PartialEq, Eq, Structural)]
pub struct EndpointId(pub u64);

/// IPC error types
#[derive(Debug, Clone, Copy, PartialEq, Eq, Structural)]
pub enum IpcError {
    /// Invalid endpoint ID
    InvalidEndpoint,
    /// Invalid thread
    InvalidThread,
    /// Message too large
    MessageTooLarge,
    /// Buffer too small
    BufferTooSmall,
    /// Endpoint closed
    EndpointClosed,
    /// Operation timed out
    Timeout,
}

/// What the scheduler is to do after an IPC step.
#[derive(Debug, Clone, Copy, PartialEq, Eq, Structural)]
pub enum SchedAction {
    /// Switch straight to this thread; the current one waits.
    DirectSwitch(ThreadId),
    /// Make this thread runnable; the current one keeps running.
    Unblock(ThreadId),
    /// Make this thread runnable, then block the current one.
    UnblockAndBlock(ThreadId),
    /// Block the current thread.
    Block,
}

/// Outcome of waiting on an endpoint.
#[derive(Debug, Clone, Copy, PartialEq, Eq, Structural)]
pub enum WaitOutcome {
    /// A message of this many bytes was copied in, sent by this thread.
    Received(usize, ThreadId),
    /// No message yet: the thread is registered as the receiver and must block, then wait again.
    Blocked,
}

/// The IPC subsystem's state: endpoints by id, callers waiting for replies, the next
/// endpoint id and whether direct switching is enabled.
pub struct IpcState {
    pub endpoints: BTreeMap<u64, Endpoint>,
    /// Thread id to the endpoint it waits on for a reply.
    pub waiting_for_reply: BTreeMap<u64, u64>,
    pub next_endpoint_id: u64,
    pub direct_switch_enabled: bool,
}

/// Every endpoint but the one under `k` is untouched, and no endpoint came or went.
pub open spec fn others_unchanged(old_m: Map<u64, Endpoint>, new_m: Map<u64, Endpoint>, k: u64) -> bool {
    &&& new_m.dom() == old_m.dom()
    &&& forall|j: u64| j != k && old_m.dom().contains(j) ==> #[trigger] new_m[j] == old_m[j]
}

/// The action a call takes, given the receiver that was waiting.
pub open spec fn call_action(receiver: Option<ThreadId>, direct: bool) -> SchedAction {
    match receiver {
        Some(r) => if direct { SchedAction::DirectSwitch(r) } else { SchedAction::UnblockAndBlock(r) },
        None => SchedAction::Block,
    }
}

/// The action a reply takes.
pub open spec fn reply_action(caller: ThreadId, direct: bool) -> SchedAction {
    if direct { SchedAction::DirectSwitch(caller) } else { SchedAction::Unblock(caller) }
}

impl IpcState {
    /// No endpoints, no waiting callers, endpoint ids from 1, direct switching on.
    pub fn new() -> (s: IpcState)
        ensures
            s.endpoints@ == Map::<u64, Endpoint>::empty(),
            s.waiting_for_reply@ == Map::<u64, u64>::empty(),
            s.next_endpoint_id == 1,
            s.direct_switch_enabled,
    {
        IpcState {
            endpoints: BTreeMap::new(),
            waiting_for_reply: BTreeMap::new(),
            next_endpoint_id: 1,
            direct_switch_enabled: true,
        }
    }
}

/// Create a new IPC endpoint
pub fn create_endpoint(state: &mut IpcState) -> (id: EndpointId)
    ensures
        id.0 == old(state).next_endpoint_id,
        final(state).next_endpoint_id == old(state).next_endpoint_id.wrapping_add(1),
        final(state).endpoints@.dom() == old(state).endpoints@.dom().insert(id.0),
        forall|j: u64| j != id.0 && old(state).endpoints@.dom().contains(j)
            ==> #[trigger] final(state).endpoints@[j] == old(state).endpoints@[j],
        final(state).endpoints@[id.0].id == id,
        final(state).endpoints@[id.0].waiting_receiver is None,
        final(state).endpoints@[id.0].message_buffer@.len() == 0,
        final(state).endpoints@[id.0].message_sender is None,
        final(state).endpoints@[id.0].reply_buffer@.len() == 0,
        !final(state).endpoints@[id.0].closed,
        final(state).waiting_for_reply@ == old(state).waiting_for_reply@,
        final(state).direct_switch_enabled == old(state).direct_switch_enabled,
{
    let id = EndpointId(state.next_endpoint_id);
    state.next_endpoint_id = state.next_endpoint_id.wrapping_add(1);
    state.endpoints.insert(id.0, Endpoint::new(id));
    id
}

/// Destroy an endpoint
pub fn destroy_endpoint(state: &mut IpcState, id: EndpointId)
    ensures
        final(state).endpoints@ == old(state).endpoints@.remove(id.0),
        final(state).waiting_for_reply@ == old(state).waiting_for_reply@,
        final(state).next_endpoint_id == old(state).next_endpoint_id,
        final(state).direct_switch_enabled == old(state).direct_switch_enabled,
{
    state.endpoints.remove(&id.0);
}

/// Send a message and start waiting for the reply (the first half of a blocking call).
///
/// The message is stored on the endpoint with the caller as its sender, and the caller
/// is recorded as waiting for a reply there. The result says what the scheduler is to
/// do: with a receiver waiting, switch straight to it (or, with direct switching off,
/// unblock it and block); with none, block. Once resumed, the caller collects the reply
/// with [`ipc_call_finish`].
pub fn ipc_call(state: &mut IpcState, current: Option<ThreadId>, endpoint: EndpointId, message: &[u8])
    -> (r: Result<SchedAction, IpcError>)
    ensures
        current is None ==> r == Err::<SchedAction, IpcError>(IpcError::InvalidThread),
        current is Some && !old(state).endpoints@.dom().contains(endpoint.0)
            ==> r == Err::<SchedAction, IpcError>(IpcError::InvalidEndpoint),
        current is Some && old(state).endpoints@.dom().contains(endpoint.0)
            && old(state).endpoints@[endpoint.0].closed
            ==> r == Err::<SchedAction, IpcError>(IpcError::EndpointClosed),
        current is Some && old(state).endpoints@.dom().contains(endpoint.0)
            && !old(state).endpoints@[endpoint.0].closed && message@.len() > MAX_MESSAGE_SIZE
            ==> r == Err::<SchedAction, IpcError>(IpcError::MessageTooLarge),
        r is Err ==> *final(state) == *old(state),
        r is Ok <==> (current is Some && old(state).endpoints@.dom().contains(endpoint.0)
            && !old(state).endpoints@[endpoint.0].closed && message@.len() <= MAX_MESSAGE_SIZE),
        r is Ok ==> ({
            let tid = current.unwrap();
            let oe = old(state).endpoints@[endpoint.0];
            let ne = final(state).endpoints@[endpoint.0];
            &&& r == Ok::<SchedAction, IpcError>(call_action(oe.waiting_receiver, old(state).direct_switch_enabled))
            &&& others_unchanged(old(state).endpoints@, final(state).endpoints@, endpoint.0)
            &&& ne.id == oe.id
            &&& ne.waiting_receiver is None
            &&& ne.message_buffer@ == message@
            &&& ne.message_sender == Some(tid)
            &&& ne.reply_buffer@ == oe.reply_buffer@
            &&& ne.closed == oe.closed
            &&& final(state).waiting_for_reply@ == old(state).waiting_for_reply@.insert(tid.0, endpoint.0)
            &&& final(state).next_endpoint_id == old(state).next_endpoint_id
            &&& final(state).direct_switch_enabled == old(state).direct_switch_enabled
        }),
{
    let tid = match current {
        Some(t) => t,
        None => {
            return Err(IpcError::InvalidThread);
        },
    };
    match state.endpoints.get(&endpoint.0) {
        None => {
            return Err(IpcError::InvalidEndpoint);
        },
        Some(ep) => {
            if ep.is_closed() {
                return Err(IpcError::EndpointClosed);
            }
            if message.len() > MAX_MESSAGE_SIZE {
                return Err(IpcError::MessageTooLarge);
            }
        },
    }
    let ghost old_eps = state.endpoints@;
    let mut ep = state.endpoints.remove(&endpoint.0).unwrap();
    let set = ep.set_message(message, tid);
    assert(set is Ok);
    let receiver = ep.take_waiting_receiver();
    state.endpoints.insert(endpoint.0, ep);
    assert(state.endpoints@ == old_eps.remove(endpoint.0).insert(endpoint.0, ep));
    state.waiting_for_reply.insert(tid.0, endpoint.0);
    let action = match receiver {
        Some(rcv) => if state.direct_switch_enabled {
            SchedAction::DirectSwitch(rcv)
        } else {
            SchedAction::UnblockAndBlock(rcv)
        },
        None => SchedAction::Block,
    };
    Ok(action)
}

/// Collect the reply once resumed (the second half of a blocking call): copy as much
/// of it as fits into `reply_buffer`, clear it, and stop waiting for a reply.
pub fn ipc_call_finish(state: &mut IpcState, current: ThreadId, endpoint: EndpointId, reply_buffer: &mut [u8])
    -> (r: Result<usize, IpcError>)
    ensures
        !old(state).endpoints@.dom().contains(endpoint.0) ==> r == Err::<usize, IpcError>(IpcError::InvalidEndpoint)
            && *final(state) == *old(state) && final(reply_buffer)@ == old(reply_buffer)@,
        old(state).endpoints@.dom().contains(endpoint.0) ==> ({
            let oe = old(state).endpoints@[endpoint.0];
            let ne = final(state).endpoints@[endpoint.0];
            let n = if oe.reply_buffer@.len() < old(reply_buffer)@.len() { oe.reply_buffer@.len() } else { old(reply_buffer)@.len() };
            &&& r == Ok::<usize, IpcError>(n as usize)
            &&& final(reply_buffer)@ == copied_into(oe.reply_buffer@, old(reply_buffer)@)
            &&& others_unchanged(old(state).endpoints@, final(state).endpoints@, endpoint.0)
            &&& ne.id == oe.id
            &&& ne.waiting_receiver == oe.waiting_receiver
            &&& ne.message_buffer@ == oe.message_buffer@
            &&& ne.message_sender == oe.message_sender
            &&& ne.reply_buffer@.len() == 0
            &&& ne.closed == oe.closed
            &&& final(state).waiting_for_reply@ == old(state).waiting_for_reply@.remove(current.0)
            &&& final(state).next_endpoint_id == old(state).next_endpoint_id
            &&& final(state).direct_switch_enabled == old(state).direct_switch_enabled
        }),
{
    if !state.endpoints.contains_key(&endpoint.0) {
        return Err(IpcError::InvalidEndpoint);
    }
    let ghost old_eps = state.endpoints@;
    let mut ep = state.endpoints.remove(&endpoint.0).unwrap();
    let got = ep.get_reply(reply_buffer);
    state.endpoints.insert(endpoint.0, ep);
    assert(state.endpoints@ == old_eps.remove(endpoint.0).insert(endpoint.0, ep));
    state.waiting_for_reply.remove(&current.0);
    got
}

/// Enable or disable direct switch optimization
pub fn set_direct_switch_enabled(state: &mut IpcState, enabled: bool)
    ensures
        final(state).direct_switch_enabled == enabled,
        final(state).endpoints@ == old(state).endpoints@,
        final(state).waiting_for_reply@ == old(state).waiting_for_reply@,
        final(state).next_endpoint_id == old(state).next_endpoint_id,
{
    state.direct_switch_enabled = enabled;
}

/// Check if direct switch optimization is enabled
pub fn is_direct_switch_enabled(state: &IpcState) -> (b: bool)
    ensures
        b == state.direct_switch_enabled,
{
    state.direct_switch_enabled
}

/// Wait for a message on an endpoint (server side).
///
/// With a message pending, as much of it as fits is copied into `buffer` and the
/// message is taken off the endpoint. With none, the thread is registered as the
/// endpoint's receiver and the result is [`WaitOutcome::Blocked`]: block, then wait again.
pub fn ipc_wait(state: &mut IpcState, current: Option<ThreadId>, endpoint: EndpointId, buffer: &mut [u8])
    -> (r: Result<WaitOutcome, IpcError>)
    ensures
        current is None ==> r == Err::<WaitOutcome, IpcError>(IpcError::InvalidThread),
        current is Some && !old(state).endpoints@.dom().contains(endpoint.0)
            ==> r == Err::<WaitOutcome, IpcError>(IpcError::InvalidEndpoint),
        r is Err ==> *final(state) == *old(state) && final(buffer)@ == old(buffer)@,
        r is Ok <==> current is Some && old(state).endpoints@.dom().contains(endpoint.0),
        r is Ok ==> ({
            let tid = current.unwrap();
            let oe = old(state).endpoints@[endpoint.0];
            let ne = final(state).endpoints@[endpoint.0];
            &&& others_unchanged(old(state).endpoints@, final(state).endpoints@, endpoint.0)
            &&& ne.id == oe.id
            &&& ne.reply_buffer@ == oe.reply_buffer@
            &&& ne.closed == oe.closed
            &&& final(state).waiting_for_reply@ == old(state).waiting_for_reply@
            &&& final(state).next_endpoint_id == old(state).next_endpoint_id
            &&& final(state).direct_switch_enabled == old(state).direct_switch_enabled
            &&& match pending_message(oe.message_buffer@, oe.message_sender) {
                Some((msg, sender)) => {
                    let n = if msg.len() < old(buffer)@.len() { msg.len() } else { old(buffer)@.len() };
                    &&& r == Ok::<WaitOutcome, IpcError>(WaitOutcome::Received(n as usize, sender))
                    &&& final(buffer)@ == copied_into(msg, old(buffer)@)
                    &&& ne.message_buffer@.len() == 0
                    &&& ne.message_sender is None
                    &&& ne.waiting_receiver == oe.waiting_receiver
                },
                None => {
                    &&& r == Ok::<WaitOutcome, IpcError>(WaitOutcome::Blocked)
                    &&& final(buffer)@ == old(buffer)@
                    &&& ne.waiting_receiver == Some(tid)
                    &&& ne.message_buffer@.len() == 0
                },
            }
        }),
{
    let tid = match current {
        Some(t) => t,
        None => {
            return Err(IpcError::InvalidThread);
        },
    };
    if !state.endpoints.contains_key(&endpoint.0) {
        return Err(IpcError::InvalidEndpoint);
    }
    let ghost old_eps = state.endpoints@;
    let mut ep = state.endpoints.remove(&endpoint.0).unwrap();
    let outcome = match ep.take_message() {
        Some((msg, sender)) => {
            let n = copy_prefix(&msg, buffer);
            WaitOutcome::Received(n, sender)
        },
        None => {
            ep.set_waiting_receiver(tid);
            WaitOutcome::Blocked
        },
    };
    state.endpoints.insert(endpoint.0, ep);
    assert(state.endpoints@ == old_eps.remove(endpoint.0).insert(endpoint.0, ep));
    Ok(outcome)
}

/// Send a reply to a waiting caller.
///
/// The reply is stored on the endpoint; the result says to switch straight back to the
/// caller, or, with direct switching off, to make it runnable.
pub fn ipc_reply(state: &mut IpcState, endpoint: EndpointId, caller: ThreadId, reply: &[u8])
    -> (r: Result<SchedAction, IpcError>)
    ensures
        !old(state).endpoints@.dom().contains(endpoint.0)
            ==> r == Err::<SchedAction, IpcError>(IpcError::InvalidEndpoint),
        old(state).endpoints@.dom().contains(endpoint.0) && reply@.len() > MAX_MESSAGE_SIZE
            ==> r == Err::<SchedAction, IpcError>(IpcError::MessageTooLarge),
        r is Err ==> *final(state) == *old(state),
        r is Ok <==> old(state).endpoints@.dom().contains(endpoint.0) && reply@.len() <= MAX_MESSAGE_SIZE,
        r is Ok ==> ({
            let oe = old(state).endpoints@[endpoint.0];
            let ne = final(state).endpoints@[endpoint.0];
            &&& r == Ok::<SchedAction, IpcError>(reply_action(caller, old(state).direct_switch_enabled))
            &&& others_unchanged(old(state).endpoints@, final(state).endpoints@, endpoint.0)
            &&& ne.id == oe.id
            &&& ne.waiting_receiver == oe.waiting_receiver
            &&& ne.message_buffer@ == oe.message_buffer@
            &&& ne.message_sender == oe.message_sender
            &&& ne.reply_buffer@ == reply@
            &&& ne.closed == oe.closed
            &&& final(state).waiting_for_reply@ == old(state).waiting_for_reply@
            &&& final(state).next_endpoint_id == old(state).next_endpoint_id
            &&& final(state).direct_switch_enabled == old(state).direct_switch_enabled
        }),
{
    if !state.endpoints.contains_key(&endpoint.0) {
        return Err(IpcError::InvalidEndpoint);
    }
    if reply.len() > MAX_MESSAGE_SIZE {
        return Err(IpcError::MessageTooLarge);
    }
    let ghost old_eps = state.endpoints@;
    let mut ep = state.endpoints.remove(&endpoint.0).unwrap();
    let set = ep.set_reply(reply);
    assert(set is Ok);
    state.endpoints.insert(endpoint.0, ep);
    assert(state.endpoints@ == old_eps.remove(endpoint.0).insert(endpoint.0, ep));
    if state.direct_switch_enabled {
        Ok(SchedAction::DirectSwitch(caller))
    } else {
        Ok(SchedAction::Unblock(caller))
    }
}

} // verus!
