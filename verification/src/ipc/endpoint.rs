//! IPC endpoint: a channel that threads send messages to and receive messages from.
use vstd::prelude::*;
use super::{EndpointId, IpcError, ThreadId};

verus! {

/// Maximum message size (4KB)
pub const MAX_MESSAGE_SIZE: usize = 4096;

/// IPC Endpoint
pub struct Endpoint {
    /// Endpoint ID
    pub id: EndpointId,
    /// Thread waiting to receive on this endpoint
    pub waiting_receiver: Option<ThreadId>,
    /// Current message buffer
    pub message_buffer: Vec<u8>,
    /// Sender of the current message
    pub message_sender: Option<ThreadId>,
    /// Reply buffer
    pub reply_buffer: Vec<u8>,
    /// Whether the endpoint is closed
    pub closed: bool,
}

/// What taking the message hands back, given the buffer and the recorded sender.
pub open spec fn pending_message(buf: Seq<u8>, sender: Option<ThreadId>) -> Option<(Seq<u8>, ThreadId)> {
    if buf.len() == 0 {
        None
    } else {
        match sender {
            Some(s) => Some((buf, s)),
            None => None,
        }
    }
}

/// What a buffer holds after as much of `src` as fits was copied to its front.
pub open spec fn copied_into(src: Seq<u8>, buf: Seq<u8>) -> Seq<u8> {
    let n = if src.len() < buf.len() { src.len() } else { buf.len() };
    src.subrange(0, n as int) + buf.subrange(n as int, buf.len() as int)
}

/// Copying into a buffer keeps its length, puts the first bytes of the source at its
/// front (as many as fit), and leaves the rest of the buffer as it was.
pub proof fn law_copied_into(src: Seq<u8>, buf: Seq<u8>, i: int)
    ensures
        copied_into(src, buf).len() == buf.len(),
        0 <= i < buf.len() && i < src.len() ==> copied_into(src, buf)[i] == src[i],
        src.len() <= i < buf.len() ==> copied_into(src, buf)[i] == buf[i],
{
}

fn copy_to_vec(data: &[u8]) -> (v: Vec<u8>)
    ensures
        v@ == data@,
{
    let mut v: Vec<u8> = Vec::new();
    let mut i: usize = 0;
    while i < data.len()
        invariant
            i <= data.len(),
            v@ == data@.subrange(0, i as int),
        decreases data.len() - i,
    {
        v.push(data[i]);
        i = i + 1;
    }
    assert(v@ =~= data@);
    v
}

/// Copy as many leading bytes of `src` as fit into `dst`; returns how many were copied.
pub(crate) fn copy_prefix(src: &Vec<u8>, dst: &mut [u8]) -> (n: usize)
    ensures
        n == (if src@.len() < old(dst)@.len() { src@.len() } else { old(dst)@.len() }),
        final(dst)@ == copied_into(src@, old(dst)@),
{
    let len = if src.len() < dst.len() { src.len() } else { dst.len() };
    let mut k: usize = 0;
    while k < len
        invariant
            k <= len,
            len <= src@.len(),
            len <= old(dst)@.len(),
            len == (if src@.len() < old(dst)@.len() { src@.len() } else { old(dst)@.len() }),
            dst@.len() == old(dst)@.len(),
            dst@ == src@.subrange(0, k as int) + old(dst)@.subrange(k as int, old(dst)@.len() as int),
        decreases len - k,
    {
        dst[k] = src[k];
        k = k + 1;
        assert(dst@ =~= src@.subrange(0, k as int) + old(dst)@.subrange(k as int, old(dst)@.len() as int));
    }
    len
}

impl Endpoint {
    /// Create a new, open endpoint with no message, reply or waiting receiver
    pub fn new(id: EndpointId) -> (e: Endpoint)
        ensures
            e.id == id,
            e.waiting_receiver is None,
            e.message_buffer@.len() == 0,
            e.message_sender is None,
            e.reply_buffer@.len() == 0,
            !e.closed,
    {
        Endpoint {
            id,
            waiting_receiver: None,
            message_buffer: Vec::new(),
            message_sender: None,
            reply_buffer: Vec::new(),
            closed: false,
        }
    }

    /// Set the waiting receiver
    pub fn set_waiting_receiver(&mut self, tid: ThreadId)
        ensures
            final(self).waiting_receiver == Some(tid),
            final(self).id == old(self).id,
            final(self).message_buffer@ == old(self).message_buffer@,
            final(self).message_sender == old(self).message_sender,
            final(self).reply_buffer@ == old(self).reply_buffer@,
            final(self).closed == old(self).closed,
    {
        self.waiting_receiver = Some(tid);
    }

    /// Take the waiting receiver (if any), leaving none
    pub fn take_waiting_receiver(&mut self) -> (r: Option<ThreadId>)
        ensures
            r == old(self).waiting_receiver,
            final(self).waiting_receiver is None,
            final(self).id == old(self).id,
            final(self).message_buffer@ == old(self).message_buffer@,
            final(self).message_sender == old(self).message_sender,
            final(self).reply_buffer@ == old(self).reply_buffer@,
            final(self).closed == old(self).closed,
    {
        self.waiting_receiver.take()
    }

    /// Store a message to be delivered, replacing any pending one.
    pub fn set_message(&mut self, data: &[u8], sender: ThreadId) -> (r: Result<(), IpcError>)
        ensures
            final(self).id == old(self).id,
            final(self).waiting_receiver == old(self).waiting_receiver,
            final(self).reply_buffer@ == old(self).reply_buffer@,
            final(self).closed == old(self).closed,
            old(self).closed ==> r == Err::<(), IpcError>(IpcError::EndpointClosed)
                && final(self).message_buffer@ == old(self).message_buffer@ && final(self).message_sender == old(self).message_sender,
            !old(self).closed && data@.len() > MAX_MESSAGE_SIZE ==> r == Err::<(), IpcError>(IpcError::MessageTooLarge)
                && final(self).message_buffer@ == old(self).message_buffer@ && final(self).message_sender == old(self).message_sender,
            !old(self).closed && data@.len() <= MAX_MESSAGE_SIZE ==> r is Ok
                && final(self).message_buffer@ == data@ && final(self).message_sender == Some(sender),
    {
        if self.closed {
            return Err(IpcError::EndpointClosed);
        }
        if data.len() > MAX_MESSAGE_SIZE {
            return Err(IpcError::MessageTooLarge);
        }
        self.message_buffer = copy_to_vec(data);
        self.message_sender = Some(sender);
        Ok(())
    }

    /// Take the pending message and its sender.
    ///
    /// `None` when no message is pending; the buffer is emptied whenever it held bytes.
    pub fn take_message(&mut self) -> (r: Option<(Vec<u8>, ThreadId)>)
        ensures
            final(self).id == old(self).id,
            final(self).waiting_receiver == old(self).waiting_receiver,
            final(self).reply_buffer@ == old(self).reply_buffer@,
            final(self).closed == old(self).closed,
            match r {
                Some((m, t)) => pending_message(old(self).message_buffer@, old(self).message_sender) == Some((m@, t)),
                None => pending_message(old(self).message_buffer@, old(self).message_sender) is None,
            },
            old(self).message_buffer@.len() == 0 ==> final(self).message_buffer@ == old(self).message_buffer@
                && final(self).message_sender == old(self).message_sender,
            old(self).message_buffer@.len() > 0 ==> final(self).message_buffer@.len() == 0 && final(self).message_sender is None,
    {
        if self.message_buffer.len() == 0 {
            return None;
        }
        let mut msg: Vec<u8> = Vec::new();
        std::mem::swap(&mut msg, &mut self.message_buffer);
        let sender = match self.message_sender.take() {
            Some(s) => s,
            None => {
                return None;
            },
        };
        Some((msg, sender))
    }

    /// Store a reply to be delivered
    pub fn set_reply(&mut self, data: &[u8]) -> (r: Result<(), IpcError>)
        ensures
            final(self).id == old(self).id,
            final(self).waiting_receiver == old(self).waiting_receiver,
            final(self).message_buffer@ == old(self).message_buffer@,
            final(self).message_sender == old(self).message_sender,
            final(self).closed == old(self).closed,
            data@.len() > MAX_MESSAGE_SIZE ==> r == Err::<(), IpcError>(IpcError::MessageTooLarge)
                && final(self).reply_buffer@ == old(self).reply_buffer@,
            data@.len() <= MAX_MESSAGE_SIZE ==> r is Ok && final(self).reply_buffer@ == data@,
    {
        if data.len() > MAX_MESSAGE_SIZE {
            return Err(IpcError::MessageTooLarge);
        }
        self.reply_buffer = copy_to_vec(data);
        Ok(())
    }

    /// Copy the reply into `buffer` (as much as fits) and clear it; returns the bytes copied.
    pub fn get_reply(&mut self, buffer: &mut [u8]) -> (r: Result<usize, IpcError>)
        ensures
            final(self).id == old(self).id,
            final(self).waiting_receiver == old(self).waiting_receiver,
            final(self).message_buffer@ == old(self).message_buffer@,
            final(self).message_sender == old(self).message_sender,
            final(self).closed == old(self).closed,
            final(self).reply_buffer@.len() == 0,
            r == Ok::<usize, IpcError>(
                if old(self).reply_buffer@.len() < old(buffer)@.len() { old(self).reply_buffer@.len() as usize } else { old(buffer)@.len() as usize },
            ),
            final(buffer)@ == copied_into(old(self).reply_buffer@, old(buffer)@),
    {
        if self.reply_buffer.len() == 0 {
            assert(buffer@ =~= copied_into(self.reply_buffer@, buffer@));
            return Ok(0);
        }
        let len = copy_prefix(&self.reply_buffer, buffer);
        self.reply_buffer.clear();
        Ok(len)
    }

    /// Close the endpoint
    pub fn close(&mut self)
        ensures
            final(self).closed,
            final(self).id == old(self).id,
            final(self).waiting_receiver == old(self).waiting_receiver,
            final(self).message_buffer@ == old(self).message_buffer@,
            final(self).message_sender == old(self).message_sender,
            final(self).reply_buffer@ == old(self).reply_buffer@,
    {
        self.closed = true;
    }

    /// Check if the endpoint is closed
    pub fn is_closed(&self) -> (b: bool)
        ensures
            b == self.closed,
    {
        self.closed
    }
}

/// A message stored on an open endpoint is what the next take hands back, with its sender.
pub proof fn law_message_roundtrip(data: Seq<u8>, sender: ThreadId)
    requires
        0 < data.len() <= MAX_MESSAGE_SIZE,
    ensures
        pending_message(data, Some(sender)) == Some((data, sender)),
{
}

/// A reply that fits the caller's buffer is delivered whole, in front of the buffer's rest.
pub proof fn law_reply_roundtrip(reply: Seq<u8>, buf: Seq<u8>)
    requires
        reply.len() <= buf.len(),
    ensures
        copied_into(reply, buf).subrange(0, reply.len() as int) == reply,
        copied_into(reply, buf).len() == buf.len(),
{
    assert(copied_into(reply, buf).subrange(0, reply.len() as int) =~= reply);
}

} // verus!
