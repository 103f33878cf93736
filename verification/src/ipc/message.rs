//! Structured IPC message formats.
use vstd::prelude::*;

verus! {

/// Size of the payload area of a message (4096 minus the 16-byte header).
pub const PAYLOAD_SIZE: usize = 4080;

/// IPC Message Header
#[derive(Debug, Clone, Copy, PartialEq, Eq, Structural)]
pub struct MessageHeader {
    /// Message type/operation code
    pub msg_type: u32,
    /// Flags
    pub flags: u32,
    /// Payload length
    pub length: u32,
    /// Reserved for future use
    pub reserved: u32,
}

impl MessageHeader {
    /// Create a new message header
    pub fn new(msg_type: u32, length: u32) -> (h: MessageHeader)
        ensures
            h == (MessageHeader { msg_type, flags: 0, length, reserved: 0 }),
    {
        MessageHeader { msg_type, flags: 0, length, reserved: 0 }
    }

    /// Size of the header in bytes
    pub fn size() -> (n: usize)
        ensures
            n == 16,
    {
        16
    }
}

/// Message requires a reply
pub const NEED_REPLY: u32 = 1 << 0;
/// Message is a reply
pub const IS_REPLY: u32 = 1 << 1;
/// Message contains capability references
pub const HAS_CAPS: u32 = 1 << 2;
/// Message uses shared memory
pub const SHARED_MEM: u32 = 1 << 3;

pub const VFS_OPEN: u32 = 0x0100;
pub const VFS_READ: u32 = 0x0101;
pub const VFS_WRITE: u32 = 0x0102;
pub const VFS_CLOSE: u32 = 0x0103;
pub const VFS_STAT: u32 = 0x0104;
pub const VFS_MKDIR: u32 = 0x0105;
pub const VFS_UNLINK: u32 = 0x0106;
pub const NET_SOCKET: u32 = 0x0200;
pub const NET_BIND: u32 = 0x0201;
pub const NET_LISTEN: u32 = 0x0202;
pub const NET_ACCEPT: u32 = 0x0203;
pub const NET_CONNECT: u32 = 0x0204;
pub const NET_SEND: u32 = 0x0205;
pub const NET_RECV: u32 = 0x0206;
pub const NET_CLOSE: u32 = 0x0207;
pub const DEV_ENUMERATE: u32 = 0x0300;
pub const DEV_OPEN: u32 = 0x0301;
pub const DEV_IOCTL: u32 = 0x0302;
pub const SYS_PING: u32 = 0x0001;
pub const SYS_SHUTDOWN: u32 = 0x0002;

/// A structured IPC message
#[derive(Debug)]
pub struct Message {
    /// Message header
    pub header: MessageHeader,
    /// Message payload
    pub payload: Vec<u8>,
}

impl Message {
    pub open spec fn wf(&self) -> bool {
        self.payload@.len() == PAYLOAD_SIZE
    }

    /// Create a new empty message
    pub fn new() -> (m: Message)
        ensures
            m.wf(),
            m.header == MessageHeader::new_spec(0, 0),
            forall|i: int| 0 <= i < PAYLOAD_SIZE ==> m.payload@[i] == 0,
    {
        Message { header: MessageHeader { msg_type: 0, flags: 0, length: 0, reserved: 0 }, payload: vec![0u8; PAYLOAD_SIZE] }
    }

    /// Create a message with type and payload; the length records all of `data`,
    /// the payload keeps what fits.
    pub fn with_payload(msg_type: u32, data: &[u8]) -> (m: Message)
        requires
            data@.len() <= u32::MAX,
        ensures
            m.wf(),
            m.header == (MessageHeader { msg_type, flags: 0, length: data@.len() as u32, reserved: 0 }),
            ({
                let n = if data@.len() < PAYLOAD_SIZE { data@.len() as int } else { PAYLOAD_SIZE as int };
                &&& m.payload@.subrange(0, n) == data@.subrange(0, n)
                &&& forall|i: int| n <= i < PAYLOAD_SIZE ==> m.payload@[i] == 0
            }),
    {
        let mut msg = Message::new();
        msg.header.msg_type = msg_type;
        msg.header.length = data.len() as u32;
        let len = if data.len() < PAYLOAD_SIZE { data.len() } else { PAYLOAD_SIZE };
        let mut i: usize = 0;
        while i < len
            invariant
                i <= len <= PAYLOAD_SIZE,
                len <= data@.len(),
                msg.header == (MessageHeader { msg_type, flags: 0, length: data@.len() as u32, reserved: 0 }),
                msg.payload@.len() == PAYLOAD_SIZE,
                msg.payload@.subrange(0, i as int) == data@.subrange(0, i as int),
                forall|j: int| i <= j < PAYLOAD_SIZE ==> msg.payload@[j] == 0,
            decreases len - i,
        {
            msg.payload.set(i, data[i]);
            i = i + 1;
            assert(msg.payload@.subrange(0, i as int) =~= data@.subrange(0, i as int));
        }
        msg
    }

    /// The payload bytes that the header's length covers
    pub fn payload_slice(&self) -> (s: &[u8])
        requires
            self.wf(),
            self.header.length <= PAYLOAD_SIZE,
        ensures
            s@ == self.payload@.subrange(0, self.header.length as int),
    {
        vstd::slice::slice_subrange(self.payload.as_slice(), 0, self.header.length as usize)
    }

    /// Set payload data: copies what fits and sets the length to the bytes copied
    pub fn set_payload(&mut self, data: &[u8])
        requires
            old(self).wf(),
        ensures
            final(self).wf(),
            ({
                let n = if data@.len() < PAYLOAD_SIZE { data@.len() as int } else { PAYLOAD_SIZE as int };
                &&& final(self).header == (MessageHeader { length: n as u32, ..old(self).header })
                &&& final(self).payload@ == data@.subrange(0, n) + old(self).payload@.subrange(n, PAYLOAD_SIZE as int)
            }),
    {
        let len = if data.len() < PAYLOAD_SIZE { data.len() } else { PAYLOAD_SIZE };
        let mut i: usize = 0;
        while i < len
            invariant
                i <= len <= PAYLOAD_SIZE,
                len <= data@.len(),
                self.header == old(self).header,
                self.payload@.len() == PAYLOAD_SIZE,
                old(self).payload@.len() == PAYLOAD_SIZE,
                self.payload@ == data@.subrange(0, i as int) + old(self).payload@.subrange(i as int, PAYLOAD_SIZE as int),
            decreases len - i,
        {
            self.payload.set(i, data[i]);
            i = i + 1;
            assert(self.payload@ =~= data@.subrange(0, i as int) + old(self).payload@.subrange(i as int, PAYLOAD_SIZE as int));
        }
        self.header.length = len as u32;
    }
}

impl MessageHeader {
    pub open spec fn new_spec(msg_type: u32, length: u32) -> MessageHeader {
        MessageHeader { msg_type, flags: 0, length, reserved: 0 }
    }
}

impl Default for Message {
    fn default() -> (m: Message)
        ensures
            m.wf(),
            m.header == MessageHeader::new_spec(0, 0),
            forall|i: int| 0 <= i < PAYLOAD_SIZE ==> m.payload@[i] == 0,
    {
        Message::new()
    }
}

} // verus!
