//! VirtIO block devices.
//!
//! A request is a chain of three buffers: a 16-byte header (type, reserved,
//! sector), 512 bytes of data and a status byte the device writes (0 = done,
//! 1 = I/O error, 2 = unsupported). A request buffer holds all three, laid out at
//! `addr`, `addr + 16` and `addr + 528`.
//!
//! Reading or writing a sector is in two halves with the device's work between:
//! `begin_*` checks the request, takes a request buffer from the pool and offers
//! its chain on the queue; the caller notifies the device and polls the used ring
//! until the chain comes back, copying in what the device wrote; `complete_*`
//! returns the buffer to the pool and reports the outcome.
use vstd::prelude::*;
use super::mmio::MmioDevice;
use super::queue::{VirtQueue, offered};
use crate::drivers::block::BlockError;

verus! {

/// Feature bits of block devices.
pub const FEATURE_SIZE_MAX: u64 = 0x2;
pub const FEATURE_SEG_MAX: u64 = 0x4;
pub const FEATURE_GEOMETRY: u64 = 0x10;
pub const FEATURE_RO: u64 = 0x20;
pub const FEATURE_BLK_SIZE: u64 = 0x40;
pub const FEATURE_FLUSH: u64 = 0x200;
pub const FEATURE_TOPOLOGY: u64 = 0x400;
pub const FEATURE_CONFIG_WCE: u64 = 0x800;
pub const FEATURE_DISCARD: u64 = 0x2000;
pub const FEATURE_WRITE_ZEROES: u64 = 0x4000;

/// Request types.
pub const REQUEST_IN: u32 = 0;
pub const REQUEST_OUT: u32 = 1;
pub const REQUEST_FLUSH: u32 = 4;
pub const REQUEST_DISCARD: u32 = 11;
pub const REQUEST_WRITE_ZEROES: u32 = 13;

/// Request status values.
pub const STATUS_OK: u8 = 0;
pub const STATUS_IOERR: u8 = 1;
pub const STATUS_UNSUPP: u8 = 2;

/// Number of request buffers in a device's pool.
pub const POOL_SIZE: usize = 8;

/// The header of a block request.
#[derive(Debug, Clone, Copy, PartialEq, Eq, Structural)]
pub struct BlockRequestHeader {
    pub req_type: u32,
    pub reserved: u32,
    pub sector: u64,
}

/// Memory for one request: header, one sector of data, status, at `addr`.
pub struct RequestBuffer {
    pub header: BlockRequestHeader,
    pub data: Vec<u8>,
    pub status: u8,
    /// Physical address of the header; the data follows at +16, the status at +528.
    pub addr: u64,
}

impl RequestBuffer {
    /// One sector of data and the three addresses fit.
    pub open spec fn wf(&self) -> bool {
        self.data@.len() == 512 && self.addr + 529 <= u64::MAX
    }

    /// A fresh buffer at `addr`: zero header and data, status 0xFF.
    pub fn new(addr: u64) -> (b: RequestBuffer)
        requires
            addr + 529 <= u64::MAX,
        ensures
            b.wf(),
            b.addr == addr,
            b.header == (BlockRequestHeader { req_type: 0, reserved: 0, sector: 0 }),
            b.status == 0xFF,
            forall|i: int| 0 <= i < 512 ==> b.data@[i] == 0,
    {
        let mut data: Vec<u8> = Vec::new();
        let mut i: usize = 0;
        while i < 512
            invariant
                i <= 512,
                data@.len() == i,
                forall|k: int| 0 <= k < i ==> data@[k] == 0,
            decreases 512 - i,
        {
            data.push(0);
            i = i + 1;
        }
        RequestBuffer { header: BlockRequestHeader { req_type: 0, reserved: 0, sector: 0 }, data, status: 0xFF, addr }
    }
}

/// The chain a request buffer makes: the header read by the device, the data
/// (written by the device when `device_writes_data`) and the status it writes.
pub open spec fn request_chain(addr: u64, device_writes_data: bool) -> Seq<(u64, u32, bool)> {
    seq![(addr, 16u32, false), ((addr + 16) as u64, 512u32, device_writes_data), ((addr + 528) as u64, 1u32, true)]
}

/// A request on its way through the device: its buffer and its chain's head.
pub struct BlockRequest {
    pub buffer: RequestBuffer,
    pub head: u16,
}

/// A VirtIO block device.
pub struct VirtioBlockDevice {
    pub device: MmioDevice,
    pub queue: VirtQueue,
    /// Capacity in sectors.
    pub capacity: u64,
    /// Bytes per block (512 unless the device says otherwise).
    pub block_size: u32,
    pub read_only: bool,
    /// Request buffers not in use.
    pub buffers: Vec<RequestBuffer>,
}

/// The block size a device uses: the configured one when it offers `BLK_SIZE`.
pub open spec fn block_size_for(features: u64, configured: u32) -> u32 {
    if features & FEATURE_BLK_SIZE != 0 { configured } else { 512 }
}

impl VirtioBlockDevice {
    /// The queue is well formed and so is every pooled buffer.
    pub open spec fn wf(&self) -> bool {
        &&& self.queue.wf()
        &&& forall|i: int| 0 <= i < self.buffers@.len() ==> (#[trigger] self.buffers@[i]).wf()
    }

    /// The pool after the request buffer was returned.
    pub open spec fn pool_after_return(&self, b: RequestBuffer) -> Seq<RequestBuffer> {
        self.buffers@.push(b)
    }

    /// Starts reading `sector` into a buffer of `buf_len` bytes. Fails, changing
    /// nothing, on a sector past the end (`InvalidSector`), a buffer shorter than a
    /// block (`BufferTooSmall`) or an empty pool (`NoBuffers`). Otherwise takes the
    /// last pooled buffer, sets its header to a read of `sector` and its status to
    /// 0xFF, and offers its chain; when the queue lacks three free descriptors that
    /// buffer is dropped and the result is `QueueFull`.
    pub fn begin_read_sector(&mut self, sector: u64, buf_len: usize) -> (r: Result<BlockRequest, BlockError>)
        requires
            old(self).wf(),
        ensures
            final(self).wf(),
            final(self).capacity == old(self).capacity && final(self).block_size == old(self).block_size
                && final(self).read_only == old(self).read_only && final(self).device == old(self).device,
            sector >= old(self).capacity ==> r == Err::<BlockRequest, BlockError>(BlockError::InvalidSector)
                && final(self).buffers@ == old(self).buffers@ && final(self).queue == old(self).queue,
            sector < old(self).capacity && buf_len < old(self).block_size ==> r == Err::<BlockRequest, BlockError>(
                BlockError::BufferTooSmall,
            ) && final(self).buffers@ == old(self).buffers@ && final(self).queue == old(self).queue,
            sector < old(self).capacity && buf_len >= old(self).block_size && old(self).buffers@.len() == 0 ==> r
                == Err::<BlockRequest, BlockError>(BlockError::NoBuffers) && final(self).buffers@ == old(self).buffers@ && final(self).queue == old(self).queue,
            sector < old(self).capacity && buf_len >= old(self).block_size && old(self).buffers@.len() > 0 ==> {
                let b = old(self).buffers@.last();
                &&& final(self).buffers@ == old(self).buffers@.drop_last()
                &&& old(self).queue.num_free < 3 ==> r == Err::<BlockRequest, BlockError>(BlockError::QueueFull)
                    && final(self).queue == old(self).queue
                &&& old(self).queue.num_free >= 3 ==> r is Ok && {
                    let req = r->Ok_0;
                    &&& req.head == old(self).queue.free_list@[0]
                    &&& req.buffer.wf()
                    &&& req.buffer.header == (BlockRequestHeader { req_type: REQUEST_IN, reserved: 0, sector })
                    &&& req.buffer.status == 0xFF
                    &&& req.buffer.addr == b.addr
                    &&& req.buffer.data@ == b.data@
                    &&& offered(old(self).queue, final(self).queue, request_chain(b.addr, true))
                }
            },
    {
        if sector >= self.capacity {
            return Err(BlockError::InvalidSector);
        }
        if buf_len < self.block_size as usize {
            return Err(BlockError::BufferTooSmall);
        }
        if self.buffers.len() == 0 {
            return Err(BlockError::NoBuffers);
        }
        let mut req_buf = self.buffers.pop().unwrap();
        proof {
            assert(req_buf.wf());
        }
        req_buf.header.req_type = REQUEST_IN;
        req_buf.header.reserved = 0;
        req_buf.header.sector = sector;
        req_buf.status = 0xFF;
        let header_addr = req_buf.addr;
        let data_addr = req_buf.addr + 16;
        let status_addr = req_buf.addr + 528;
        let chain = [(header_addr, 16u32, false), (data_addr, 512u32, true), (status_addr, 1u32, true)];
        proof {
            assert(chain@ =~= request_chain(req_buf.addr, true));
        }
        match self.queue.add_buffer(&chain) {
            Ok(head) => Ok(BlockRequest { buffer: req_buf, head }),
            Err(_) => Err(BlockError::QueueFull),
        }
    }

    /// Finishes a read once the device has returned the chain: puts the request
    /// buffer back in the pool; with status 0 copies its sector into the front of
    /// `buf`, and otherwise fails with `IoError`, `buf` unchanged.
    pub fn complete_read_sector(&mut self, req: BlockRequest, buf: &mut [u8]) -> (r: Result<(), BlockError>)
        requires
            old(self).wf(),
            req.buffer.wf(),
            old(buf)@.len() >= 512,
        ensures
            final(self).wf(),
            final(self).buffers@ == old(self).pool_after_return(req.buffer),
            final(self).queue == old(self).queue,
            final(self).capacity == old(self).capacity && final(self).block_size == old(self).block_size
                && final(self).read_only == old(self).read_only && final(self).device == old(self).device,
            final(buf)@.len() == old(buf)@.len(),
            req.buffer.status != STATUS_OK ==> r == Err::<(), BlockError>(BlockError::IoError) && final(buf)@ == old(buf)@,
            req.buffer.status == STATUS_OK ==> r == Ok::<(), BlockError>(()) && final(buf)@ == req.buffer.data@
                + old(buf)@.skip(512),
    {
        let ghost data = req.buffer.data@;
        if req.buffer.status != STATUS_OK {
            self.buffers.push(req.buffer);
            return Err(BlockError::IoError);
        }
        let ghost before = buf@;
        let mut i: usize = 0;
        while i < 512
            invariant
                i <= 512,
                req.buffer.data@ == data,
                data.len() == 512,
                buf@.len() == before.len(),
                before.len() >= 512,
                forall|k: int| 0 <= k < i ==> buf@[k] == data[k],
                forall|k: int| i <= k < buf@.len() ==> buf@[k] == before[k],
            decreases 512 - i,
        {
            buf[i] = req.buffer.data[i];
            i = i + 1;
        }
        proof {
            assert(buf@ =~= data + before.skip(512));
        }
        self.buffers.push(req.buffer);
        Ok(())
    }

    /// Starts writing the first 512 bytes of `data` to `sector`. Fails, changing
    /// nothing, on a read-only device (`ReadOnly`), a sector past the end
    /// (`InvalidSector`), data shorter than a block (`BufferTooSmall`) or an empty
    /// pool (`NoBuffers`). Otherwise takes the last pooled buffer, sets its header to
    /// a write of `sector`, copies the data in, sets the status to 0xFF and offers
    /// its chain; when the queue lacks three free descriptors that buffer is dropped
    /// and the result is `QueueFull`.
    pub fn begin_write_sector(&mut self, sector: u64, data: &[u8]) -> (r: Result<BlockRequest, BlockError>)
        requires
            old(self).wf(),
            !old(self).read_only && sector < old(self).capacity && data@.len() >= old(self).block_size && old(self).buffers@.len() > 0 ==> data@.len() >= 512,
        ensures
            final(self).wf(),
            final(self).capacity == old(self).capacity && final(self).block_size == old(self).block_size
                && final(self).read_only == old(self).read_only && final(self).device == old(self).device,
            old(self).read_only ==> r == Err::<BlockRequest, BlockError>(BlockError::ReadOnly) && final(self).buffers@
                == old(self).buffers@ && final(self).queue == old(self).queue,
            !old(self).read_only && sector >= old(self).capacity ==> r == Err::<BlockRequest, BlockError>(
                BlockError::InvalidSector,
            ) && final(self).buffers@ == old(self).buffers@ && final(self).queue == old(self).queue,
            !old(self).read_only && sector < old(self).capacity && data@.len() < old(self).block_size ==> r == Err::<
                BlockRequest,
                BlockError,
            >(BlockError::BufferTooSmall) && final(self).buffers@ == old(self).buffers@ && final(self).queue == old(self).queue,
            !old(self).read_only && sector < old(self).capacity && data@.len() >= old(self).block_size && old(self).buffers@.len() == 0 ==> r == Err::<BlockRequest, BlockError>(BlockError::NoBuffers) && final(self).buffers@ == old(self).buffers@ && final(self).queue == old(self).queue,
            !old(self).read_only && sector < old(self).capacity && data@.len() >= old(self).block_size && old(self).buffers@.len() > 0 ==> {
                let b = old(self).buffers@.last();
                &&& final(self).buffers@ == old(self).buffers@.drop_last()
                &&& old(self).queue.num_free < 3 ==> r == Err::<BlockRequest, BlockError>(BlockError::QueueFull)
                    && final(self).queue == old(self).queue
                &&& old(self).queue.num_free >= 3 ==> r is Ok && {
                    let req = r->Ok_0;
                    &&& req.head == old(self).queue.free_list@[0]
                    &&& req.buffer.wf()
                    &&& req.buffer.header == (BlockRequestHeader { req_type: REQUEST_OUT, reserved: 0, sector })
                    &&& req.buffer.status == 0xFF
                    &&& req.buffer.addr == b.addr
                    &&& req.buffer.data@ == data@.take(512)
                    &&& offered(old(self).queue, final(self).queue, request_chain(b.addr, false))
                }
            },
    {
        if self.read_only {
            return Err(BlockError::ReadOnly);
        }
        if sector >= self.capacity {
            return Err(BlockError::InvalidSector);
        }
        if data.len() < self.block_size as usize {
            return Err(BlockError::BufferTooSmall);
        }
        if self.buffers.len() == 0 {
            return Err(BlockError::NoBuffers);
        }
        let mut req_buf = self.buffers.pop().unwrap();
        proof {
            assert(req_buf.wf());
        }
        req_buf.header.req_type = REQUEST_OUT;
        req_buf.header.reserved = 0;
        req_buf.header.sector = sector;
        let ghost addr0 = req_buf.addr;
        let ghost hdr0 = req_buf.header;
        let mut i: usize = 0;
        while i < 512
            invariant
                i <= 512,
                req_buf.addr == addr0,
                req_buf.header == hdr0,
                data@.len() >= 512,
                req_buf.data@.len() == 512,
                req_buf.addr + 529 <= u64::MAX,
                forall|k: int| 0 <= k < i ==> req_buf.data@[k] == data@[k],
            decreases 512 - i,
        {
            req_buf.data.set(i, data[i]);
            i = i + 1;
        }
        proof {
            assert(req_buf.data@ =~= data@.take(512));
        }
        req_buf.status = 0xFF;
        let header_addr = req_buf.addr;
        let data_addr = req_buf.addr + 16;
        let status_addr = req_buf.addr + 528;
        let chain = [(header_addr, 16u32, false), (data_addr, 512u32, false), (status_addr, 1u32, true)];
        proof {
            assert(chain@ =~= request_chain(req_buf.addr, false));
        }
        match self.queue.add_buffer(&chain) {
            Ok(head) => Ok(BlockRequest { buffer: req_buf, head }),
            Err(_) => Err(BlockError::QueueFull),
        }
    }

    /// Finishes a write once the device has returned the chain: puts the request
    /// buffer back in the pool and fails with `IoError` unless the status is 0.
    pub fn complete_write_sector(&mut self, req: BlockRequest) -> (r: Result<(), BlockError>)
        requires
            old(self).wf(),
            req.buffer.wf(),
        ensures
            final(self).wf(),
            final(self).buffers@ == old(self).pool_after_return(req.buffer),
            final(self).queue == old(self).queue,
            final(self).capacity == old(self).capacity && final(self).block_size == old(self).block_size
                && final(self).read_only == old(self).read_only && final(self).device == old(self).device,
            r == (if req.buffer.status == STATUS_OK {
                Ok::<(), BlockError>(())
            } else {
                Err::<(), BlockError>(BlockError::IoError)
            }),
    {
        let status = req.buffer.status;
        self.buffers.push(req.buffer);
        if status != STATUS_OK {
            return Err(BlockError::IoError);
        }
        Ok(())
    }

    /// Capacity in sectors, block size and whether the device is read-only.
    pub fn info(&self) -> (i: (u64, u32, bool))
        ensures
            i == (self.capacity, self.block_size, self.read_only),
    {
        (self.capacity, self.block_size, self.read_only)
    }
}

/// Sets up a block device once its features are negotiated (`features`) and its
/// configuration read (`capacity`, `configured_block_size`, `queue_max` of queue 0):
/// the block size is the configured one when `BLK_SIZE` was negotiated and 512
/// otherwise, the device is read-only when `RO` was; the request queue has
/// `min(queue_max, 64)` descriptors, and the pool one buffer at each of the
/// addresses given. Fails when the device has no queue.
pub fn init_device(
    device: MmioDevice,
    features: u64,
    capacity: u64,
    configured_block_size: u32,
    queue_max: u16,
    buffer_addrs: &[u64],
) -> (r: Result<VirtioBlockDevice, &'static str>)
    requires
        forall|i: int| 0 <= i < buffer_addrs@.len() ==> buffer_addrs@[i] + 529 <= u64::MAX,
    ensures
        queue_max == 0 ==> r == Err::<VirtioBlockDevice, &'static str>("No queue available"),
        queue_max != 0 ==> r is Ok && {
            let d = r->Ok_0;
            &&& d.wf()
            &&& d.device == device
            &&& d.capacity == capacity
            &&& d.block_size == block_size_for(features, configured_block_size)
            &&& d.read_only == (features & FEATURE_RO != 0)
            &&& d.queue.index == 0
            &&& d.queue.size == (if queue_max < 64 { queue_max } else { 64u16 })
            &&& d.queue.num_free == d.queue.size
            &&& d.queue.pending@.len() == 0
            &&& d.buffers@.len() == buffer_addrs@.len()
            &&& forall|i: int|
                0 <= i < buffer_addrs@.len() ==> (#[trigger] d.buffers@[i]).addr == buffer_addrs@[i]
                    && d.buffers@[i].status == 0xFF
        },
{
    let block_size = if features & FEATURE_BLK_SIZE != 0 { configured_block_size } else { 512 };
    let read_only = features & FEATURE_RO != 0;
    if queue_max == 0 {
        return Err("No queue available");
    }
    let qsize = if queue_max < 64 { queue_max } else { 64 };
    let queue = VirtQueue::new(0, qsize);
    let mut buffers: Vec<RequestBuffer> = Vec::new();
    let mut i: usize = 0;
    while i < buffer_addrs.len()
        invariant
            i <= buffer_addrs@.len(),
            buffers@.len() == i,
            forall|k: int| 0 <= k < buffer_addrs@.len() ==> buffer_addrs@[k] + 529 <= u64::MAX,
            forall|k: int|
                0 <= k < i ==> (#[trigger] buffers@[k]).wf() && buffers@[k].addr == buffer_addrs@[k]
                    && buffers@[k].status == 0xFF,
        decreases buffer_addrs@.len() - i,
    {
        buffers.push(RequestBuffer::new(buffer_addrs[i]));
        i = i + 1;
    }
    Ok(VirtioBlockDevice { device, queue, capacity, block_size, read_only, buffers })
}

/// Capacity, block size and read-only flag of the block device, if there is one.
pub fn get_info(dev: &Option<VirtioBlockDevice>) -> (r: Option<(u64, u32, bool)>)
    ensures
        r == (match dev {
            Some(d) => Some((d.capacity, d.block_size, d.read_only)),
            None => None::<(u64, u32, bool)>,
        }),
{
    match dev {
        Some(d) => Some(d.info()),
        None => None,
    }
}

} // verus!
