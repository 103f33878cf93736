//! USB mass storage class: bulk-only transport command wrappers, SCSI commands and
//! responses, and the registry of mass storage devices.
use vstd::prelude::*;
use super::{UsbDevice, UsbClass, UsbRegistry, of_class};
use crate::drivers::block::{BlockDevice, BlockError};
use crate::text::{push_char, push_str, lossy_string, trimmed, utf8_lossy, trim_whitespace};

verus! {

/// MSC subclass: SCSI command set not reported
pub const SUBCLASS_SCSI_NOT_REPORTED: u8 = 0x00;
/// MSC subclass: reduced block commands
pub const SUBCLASS_RBC: u8 = 0x01;
/// MSC subclass: MMC-5 (CD/DVD)
pub const SUBCLASS_MMC5: u8 = 0x02;
/// MSC subclass: UFI (floppy)
pub const SUBCLASS_UFI: u8 = 0x04;
/// MSC subclass: SCSI transparent command set
pub const SUBCLASS_SCSI: u8 = 0x06;
/// MSC subclass: LSD FS
pub const SUBCLASS_LSDFS: u8 = 0x07;
/// MSC subclass: IEEE 1667
pub const SUBCLASS_IEEE1667: u8 = 0x08;

/// MSC protocol: CBI with command completion interrupt
pub const PROTOCOL_CBI_INT: u8 = 0x00;
/// MSC protocol: CBI without command completion interrupt
pub const PROTOCOL_CBI_NO_INT: u8 = 0x01;
/// MSC protocol: bulk-only transport
pub const PROTOCOL_BBB: u8 = 0x50;

/// SCSI: TEST UNIT READY
pub const TEST_UNIT_READY: u8 = 0x00;
/// SCSI: REQUEST SENSE
pub const REQUEST_SENSE: u8 = 0x03;
/// SCSI: INQUIRY
pub const INQUIRY: u8 = 0x12;
/// SCSI: MODE SENSE (6)
pub const MODE_SENSE_6: u8 = 0x1A;
/// SCSI: START STOP UNIT
pub const START_STOP_UNIT: u8 = 0x1B;
/// SCSI: READ CAPACITY (10)
pub const READ_CAPACITY_10: u8 = 0x25;
/// SCSI: READ (10)
pub const READ_10: u8 = 0x28;
/// SCSI: WRITE (10)
pub const WRITE_10: u8 = 0x2A;
/// SCSI: READ CAPACITY (16)
pub const READ_CAPACITY_16: u8 = 0x9E;
/// SCSI: READ (16)
pub const READ_16: u8 = 0x88;
/// SCSI: WRITE (16)
pub const WRITE_16: u8 = 0x8A;

/// Command Block Wrapper (CBW)
#[derive(Debug, Clone, Copy)]
pub struct CommandBlockWrapper {
    /// Signature (0x43425355 = "USBC")
    pub signature: u32,
    /// Tag (matches CSW)
    pub tag: u32,
    /// Transfer length
    pub data_length: u32,
    /// Flags (bit 7 = direction: 0=OUT, 1=IN)
    pub flags: u8,
    /// LUN
    pub lun: u8,
    /// Command length (1-16)
    pub cb_length: u8,
    /// Command block (SCSI command)
    pub cb: [u8; 16],
}

/// CBW signature ("USBC")
pub const CBW_SIGNATURE: u32 = 0x43425355;
/// CBW size in bytes
pub const CBW_SIZE: usize = 31;

impl CommandBlockWrapper {
    /// A command wrapper: the first 16 bytes of `command` go in the command block,
    /// the rest of the block is zero
    pub fn new(tag: u32, data_length: u32, direction_in: bool, lun: u8, command: &[u8]) -> (w: CommandBlockWrapper)
        ensures
            w.signature == CBW_SIGNATURE,
            w.tag == tag,
            w.data_length == data_length,
            w.flags == (if direction_in { 0x80u8 } else { 0x00u8 }),
            w.lun == lun,
            w.cb_length == (if command@.len() < 16 { command@.len() } else { 16 }),
            w.cb@.len() == 16,
            forall|i: int| 0 <= i < w.cb_length ==> #[trigger] w.cb@[i] == command@[i],
            forall|i: int| w.cb_length <= i < 16 ==> #[trigger] w.cb@[i] == 0,
    {
        let mut cb = [0u8; 16];
        let len = if command.len() < 16 { command.len() } else { 16 };
        let mut i: usize = 0;
        while i < len
            invariant
                i <= len <= 16,
                len <= command@.len(),
                cb@.len() == 16,
                forall|j: int| 0 <= j < i ==> #[trigger] cb@[j] == command@[j],
                forall|j: int| i <= j < 16 ==> #[trigger] cb@[j] == 0,
            decreases len - i,
        {
            cb[i] = command[i];
            i = i + 1;
        }
        CommandBlockWrapper {
            signature: CBW_SIGNATURE,
            tag,
            data_length,
            flags: if direction_in { 0x80 } else { 0x00 },
            lun,
            cb_length: len as u8,
            cb,
        }
    }
}

/// Command Status Wrapper (CSW)
#[derive(Debug, Clone, Copy)]
pub struct CommandStatusWrapper {
    /// Signature (0x53425355 = "USBS")
    pub signature: u32,
    /// Tag (matches CBW)
    pub tag: u32,
    /// Data residue
    pub data_residue: u32,
    /// Status
    pub status: u8,
}

/// CSW signature ("USBS")
pub const CSW_SIGNATURE: u32 = 0x53425355;
/// CSW size in bytes
pub const CSW_SIZE: usize = 13;
/// CSW status: passed
pub const STATUS_PASSED: u8 = 0x00;
/// CSW status: failed
pub const STATUS_FAILED: u8 = 0x01;
/// CSW status: phase error
pub const STATUS_PHASE_ERROR: u8 = 0x02;

/// SCSI Inquiry Response
#[derive(Debug, Clone, Copy)]
pub struct InquiryResponse {
    pub peripheral: u8,
    pub removable: u8,
    pub version: u8,
    pub response_format: u8,
    pub additional_length: u8,
    pub flags: [u8; 3],
    pub vendor: [u8; 8],
    pub product: [u8; 16],
    pub revision: [u8; 4],
}

/// The text of a bytes field: decoded as UTF-8 (an invalid sequence reads as U+FFFD)
/// with leading and trailing whitespace removed.
pub open spec fn lossy_trimmed(bytes: Seq<u8>) -> Seq<char> {
    trim_whitespace(utf8_lossy(bytes))
}

/// Decodes `bytes` (see `lossy_trimmed`).
fn text_of_bytes(bytes: &[u8]) -> (s: String)
    ensures
        s@ == lossy_trimmed(bytes@),
{
    let full = lossy_string(bytes);
    trimmed(&full)
}

impl InquiryResponse {
    /// The vendor identification, as text
    pub fn vendor_string(&self) -> (s: String)
        ensures
            s@ == lossy_trimmed(self.vendor@),
    {
        text_of_bytes(&self.vendor)
    }

    /// The product identification, as text
    pub fn product_string(&self) -> (s: String)
        ensures
            s@ == lossy_trimmed(self.product@),
    {
        text_of_bytes(&self.product)
    }

    /// Whether the medium is removable (bit 7)
    pub fn is_removable(&self) -> (b: bool)
        ensures
            b == (self.removable >= 0x80),
    {
        let r = self.removable;
        proof {
            crate::bits::lemma_byte_bits();
        }
        assert(((r & 0x80) != 0) == (r >= 0x80));
        r & 0x80 != 0
    }
}

/// `x` with its four bytes in reverse order.
pub open spec fn byte_swap32(x: u32) -> u32 {
    ((x % 0x100) * 0x1000000 + ((x / 0x100) % 0x100) * 0x10000 + ((x / 0x10000) % 0x100) * 0x100 + x / 0x1000000) as u32
}

fn swap_bytes32(x: u32) -> (r: u32)
    ensures
        r == byte_swap32(x),
{
    let r = ((x & 0xFF) << 24) | (((x >> 8) & 0xFF) << 16) | (((x >> 16) & 0xFF) << 8) | (x >> 24);
    assert(r == byte_swap32(x)) by (bit_vector)
        requires
            r == ((x & 0xFF) << 24) | (((x >> 8) & 0xFF) << 16) | (((x >> 16) & 0xFF) << 8) | (x >> 24),
    ;
    r
}

/// Read Capacity (10) Response, as it lies in memory: each field holds its four
/// big-endian bytes read as a little-endian word (the kernel's targets are little-endian).
#[derive(Debug, Clone, Copy)]
pub struct ReadCapacity10Response {
    pub last_lba: u32,
    pub block_size: u32,
}

impl ReadCapacity10Response {
    /// The last logical block address
    pub fn last_lba(&self) -> (v: u32)
        ensures
            v == byte_swap32(self.last_lba),
    {
        swap_bytes32(self.last_lba)
    }

    /// The block size in bytes
    pub fn block_size(&self) -> (v: u32)
        ensures
            v == byte_swap32(self.block_size),
    {
        swap_bytes32(self.block_size)
    }

    /// Number of blocks: one more than the last address
    pub fn total_blocks(&self) -> (v: u64)
        ensures
            v == byte_swap32(self.last_lba) + 1,
    {
        self.last_lba() as u64 + 1
    }

    /// Capacity in bytes
    pub fn capacity_bytes(&self) -> (v: u64)
        ensures
            v == (byte_swap32(self.last_lba) + 1) * byte_swap32(self.block_size),
    {
        let t = self.total_blocks();
        let b = self.block_size() as u64;
        assert(t * b <= u64::MAX) by (nonlinear_arith)
            requires
                t <= 0x1_0000_0000u64,
                b < 0x1_0000_0000u64,
        ;
        t * b
    }
}

/// USB Mass Storage Device
pub struct MscDevice {
    /// USB device info
    pub usb_device: UsbDevice,
    /// Interface number
    pub interface: u8,
    /// Bulk IN endpoint
    pub bulk_in: u8,
    /// Bulk OUT endpoint
    pub bulk_out: u8,
    /// Max LUN
    pub max_lun: u8,
    /// Block size
    pub block_size: u32,
    /// Total blocks
    pub total_blocks: u64,
    /// Vendor string
    pub vendor: String,
    /// Product string
    pub product: String,
    /// Is removable
    pub removable: bool,
    /// Command tag counter
    pub tag: u32,
}

/// The command block of a READ (10) or WRITE (10): opcode, big-endian address and
/// big-endian block count.
pub open spec fn rw10_command(opcode: u8, lba: u32, blocks: u16) -> Seq<u8> {
    seq![opcode, 0u8, (lba / 0x1000000) as u8, ((lba / 0x10000) % 0x100) as u8, ((lba / 0x100) % 0x100) as u8,
        (lba % 0x100) as u8, 0u8, (blocks / 0x100) as u8, (blocks % 0x100) as u8, 0u8]
}

fn rw10_block(opcode: u8, lba: u32, blocks: u16) -> (c: [u8; 10])
    ensures
        c@ == rw10_command(opcode, lba, blocks),
{
    let l0 = (lba >> 24) as u8;
    let l1 = ((lba >> 16) & 0xFF) as u8;
    let l2 = ((lba >> 8) & 0xFF) as u8;
    let l3 = (lba & 0xFF) as u8;
    let n0 = (blocks >> 8) as u8;
    let n1 = (blocks & 0xFF) as u8;
    assert(lba >> 24 == lba / 0x1000000 && (lba >> 16) & 0xFF == (lba / 0x10000) % 0x100
        && (lba >> 8) & 0xFF == (lba / 0x100) % 0x100 && lba & 0xFF == lba % 0x100) by (bit_vector);
    assert(blocks >> 8 == blocks / 0x100 && blocks & 0xFF == blocks % 0x100) by (bit_vector);
    let c = [opcode, 0, l0, l1, l2, l3, 0, n0, n1, 0];
    assert(c@ =~= rw10_command(opcode, lba, blocks));
    c
}

impl MscDevice {
    /// A device on `interface` with the given bulk endpoints, 512-byte blocks, unknown
    /// capacity and the tag counter at 1
    pub fn new(usb_device: UsbDevice, interface: u8, bulk_in: u8, bulk_out: u8) -> (d: MscDevice)
        ensures
            d.usb_device == usb_device,
            d.interface == interface,
            d.bulk_in == bulk_in,
            d.bulk_out == bulk_out,
            d.max_lun == 0,
            d.block_size == 512,
            d.total_blocks == 0,
            d.vendor@.len() == 0,
            d.product@.len() == 0,
            !d.removable,
            d.tag == 1,
    {
        MscDevice {
            usb_device,
            interface,
            bulk_in,
            bulk_out,
            max_lun: 0,
            block_size: 512,
            total_blocks: 0,
            vendor: String::new(),
            product: String::new(),
            removable: false,
            tag: 1,
        }
    }

    /// Get next command tag
    fn next_tag(&mut self) -> (t: u32)
        ensures
            t == old(self).tag,
            final(self).tag == old(self).tag.wrapping_add(1),
            final(self).block_size == old(self).block_size,
    {
        let tag = self.tag;
        self.tag = self.tag.wrapping_add(1);
        tag
    }

    /// Build TEST UNIT READY command
    pub fn build_test_unit_ready(&mut self) -> (w: CommandBlockWrapper)
        ensures
            w.tag == old(self).tag,
            final(self).tag == old(self).tag.wrapping_add(1),
            w.data_length == 0,
            w.flags == 0,
            w.lun == 0,
            w.cb_length == 6,
            w.cb@ == seq![TEST_UNIT_READY, 0u8, 0, 0, 0, 0, 0, 0, 0, 0, 0, 0, 0, 0, 0, 0],
    {
        let cmd = [TEST_UNIT_READY, 0, 0, 0, 0, 0];
        let w = CommandBlockWrapper::new(self.next_tag(), 0, false, 0, &cmd);
        assert(w.cb@ =~= seq![TEST_UNIT_READY, 0u8, 0, 0, 0, 0, 0, 0, 0, 0, 0, 0, 0, 0, 0, 0]);
        w
    }

    /// Build INQUIRY command (36 bytes in)
    pub fn build_inquiry(&mut self) -> (w: CommandBlockWrapper)
        ensures
            w.tag == old(self).tag,
            final(self).tag == old(self).tag.wrapping_add(1),
            w.data_length == 36,
            w.flags == 0x80,
            w.lun == 0,
            w.cb_length == 6,
            w.cb@ == seq![INQUIRY, 0u8, 0, 0, 36, 0, 0, 0, 0, 0, 0, 0, 0, 0, 0, 0],
    {
        let cmd = [INQUIRY, 0, 0, 0, 36, 0];
        let w = CommandBlockWrapper::new(self.next_tag(), 36, true, 0, &cmd);
        assert(w.cb@ =~= seq![INQUIRY, 0u8, 0, 0, 36, 0, 0, 0, 0, 0, 0, 0, 0, 0, 0, 0]);
        w
    }

    /// Build READ CAPACITY (10) command (8 bytes in)
    pub fn build_read_capacity(&mut self) -> (w: CommandBlockWrapper)
        ensures
            w.tag == old(self).tag,
            final(self).tag == old(self).tag.wrapping_add(1),
            w.data_length == 8,
            w.flags == 0x80,
            w.lun == 0,
            w.cb_length == 10,
            w.cb@ == seq![READ_CAPACITY_10, 0u8, 0, 0, 0, 0, 0, 0, 0, 0, 0, 0, 0, 0, 0, 0],
    {
        let cmd = [READ_CAPACITY_10, 0, 0, 0, 0, 0, 0, 0, 0, 0];
        let w = CommandBlockWrapper::new(self.next_tag(), 8, true, 0, &cmd);
        assert(w.cb@ =~= seq![READ_CAPACITY_10, 0u8, 0, 0, 0, 0, 0, 0, 0, 0, 0, 0, 0, 0, 0, 0]);
        w
    }

    /// Build READ (10) command for `blocks` blocks from `lba`
    pub fn build_read_10(&mut self, lba: u32, blocks: u16) -> (w: CommandBlockWrapper)
        requires
            blocks * old(self).block_size <= u32::MAX,
        ensures
            w.tag == old(self).tag,
            final(self).tag == old(self).tag.wrapping_add(1),
            w.data_length == blocks * old(self).block_size,
            w.flags == 0x80,
            w.lun == 0,
            w.cb_length == 10,
            w.cb@.subrange(0, 10) == rw10_command(READ_10, lba, blocks),
            w.signature == CBW_SIGNATURE,
            w.cb@.subrange(10, 16) == seq![0u8, 0u8, 0u8, 0u8, 0u8, 0u8],
    {
        let cmd = rw10_block(READ_10, lba, blocks);
        let len = blocks as u32 * self.block_size;
        let w = CommandBlockWrapper::new(self.next_tag(), len, true, 0, &cmd);
        assert(w.cb@.subrange(0, 10) =~= rw10_command(READ_10, lba, blocks));
        assert(w.cb@.subrange(10, 16) =~= seq![0u8, 0u8, 0u8, 0u8, 0u8, 0u8]);
        w
    }

    /// Build WRITE (10) command for `blocks` blocks at `lba`
    pub fn build_write_10(&mut self, lba: u32, blocks: u16) -> (w: CommandBlockWrapper)
        requires
            blocks * old(self).block_size <= u32::MAX,
        ensures
            w.tag == old(self).tag,
            final(self).tag == old(self).tag.wrapping_add(1),
            w.data_length == blocks * old(self).block_size,
            w.flags == 0,
            w.lun == 0,
            w.cb_length == 10,
            w.cb@.subrange(0, 10) == rw10_command(WRITE_10, lba, blocks),
            w.signature == CBW_SIGNATURE,
            w.cb@.subrange(10, 16) == seq![0u8, 0u8, 0u8, 0u8, 0u8, 0u8],
    {
        let cmd = rw10_block(WRITE_10, lba, blocks);
        let len = blocks as u32 * self.block_size;
        let w = CommandBlockWrapper::new(self.next_tag(), len, false, 0, &cmd);
        assert(w.cb@.subrange(0, 10) =~= rw10_command(WRITE_10, lba, blocks));
        assert(w.cb@.subrange(10, 16) =~= seq![0u8, 0u8, 0u8, 0u8, 0u8, 0u8]);
        w
    }

    /// Get capacity in bytes
    pub fn capacity_bytes(&self) -> (v: u64)
        requires
            self.total_blocks * self.block_size <= u64::MAX,
        ensures
            v == self.total_blocks * self.block_size,
    {
        self.total_blocks * self.block_size as u64
    }

    /// Get capacity in MB
    pub fn capacity_mb(&self) -> (v: u64)
        requires
            self.total_blocks * self.block_size <= u64::MAX,
        ensures
            v == (self.total_blocks * self.block_size) / 1048576int,
    {
        self.capacity_bytes() / (1024 * 1024)
    }
}

impl BlockDevice for MscDevice {
    open spec fn spec_sector_count(&self) -> u64 {
        self.total_blocks
    }

    open spec fn spec_sector_size(&self) -> u32 {
        self.block_size
    }

    open spec fn spec_read_only(&self) -> bool {
        false
    }

    /// Transfers are not issued yet: every sector reads as zeros.
    open spec fn sector_data(&self, sector: u64) -> Seq<u8> {
        Seq::new(self.block_size as nat, |i: int| 0u8)
    }

    /// A write is taken when it names a sector of the device and carries a whole
    /// block; transfers are not issued yet, so nothing of it is kept.
    open spec fn wrote(&self, sector: u64, data: Seq<u8>) -> bool {
        sector < self.total_blocks && data.len() == self.block_size
    }

    fn sector_size(&self) -> (n: u32) {
        self.block_size
    }

    fn sector_count(&self) -> (n: u64) {
        self.total_blocks
    }

    fn is_read_only(&self) -> (b: bool) {
        false
    }

    fn read_sector(&self, sector: u64, buffer: &mut [u8]) -> (r: Result<(), BlockError>)
        ensures
            sector >= self.total_blocks ==> r == Err::<(), BlockError>(BlockError::InvalidSector),
            sector < self.total_blocks && old(buffer)@.len() < self.block_size
                ==> r == Err::<(), BlockError>(BlockError::BufferTooSmall),
            r is Ok <==> sector < self.total_blocks && old(buffer)@.len() >= self.block_size,
            r is Err ==> final(buffer)@ == old(buffer)@,
            r is Ok ==> final(buffer)@.subrange(self.block_size as int, old(buffer)@.len() as int)
                == old(buffer)@.subrange(self.block_size as int, old(buffer)@.len() as int),
    {
        if sector >= self.total_blocks {
            return Err(BlockError::InvalidSector);
        }
        if buffer.len() < self.block_size as usize {
            return Err(BlockError::BufferTooSmall);
        }
        let n = self.block_size as usize;
        let mut i: usize = 0;
        while i < n
            invariant
                i <= n,
                n == self.block_size,
                n <= buffer@.len(),
                buffer@.len() == old(buffer)@.len(),
                forall|j: int| 0 <= j < i ==> buffer@[j] == 0,
                forall|j: int| n <= j < buffer@.len() ==> buffer@[j] == old(buffer)@[j],
            decreases n - i,
        {
            buffer[i] = 0;
            i = i + 1;
        }
        assert(buffer@.subrange(0, n as int) =~= self.sector_data(sector));
        assert(buffer@.subrange(n as int, buffer@.len() as int) =~= old(buffer)@.subrange(n as int, old(buffer)@.len() as int));
        Ok(())
    }

    fn write_sector(&self, sector: u64, buffer: &[u8]) -> (r: Result<(), BlockError>)
        ensures
            sector >= self.total_blocks ==> r == Err::<(), BlockError>(BlockError::InvalidSector),
            sector < self.total_blocks && buffer@.len() < self.block_size
                ==> r == Err::<(), BlockError>(BlockError::BufferTooSmall),
            r is Ok <==> sector < self.total_blocks && buffer@.len() >= self.block_size,
    {
        if sector >= self.total_blocks {
            return Err(BlockError::InvalidSector);
        }
        if buffer.len() < self.block_size as usize {
            return Err(BlockError::BufferTooSmall);
        }
        assert(buffer@.take(self.block_size as int).len() == self.block_size);
        assert(self.wrote(sector, buffer@.take(self.spec_sector_size() as int)));
        Ok(())
    }
}

/// The registered mass storage devices.
pub struct MscRegistry {
    pub devices: Vec<MscDevice>,
}

impl MscRegistry {
    /// No devices.
    pub fn new() -> (r: MscRegistry)
        ensures
            r.devices@.len() == 0,
    {
        MscRegistry { devices: Vec::new() }
    }
}

/// Register an MSC device
pub fn register_device(msc: &mut MscRegistry, device: MscDevice)
    ensures
        final(msc).devices@ == old(msc).devices@.push(device),
{
    msc.devices.push(device);
}

/// "vendor product" for each device, in registration order
pub fn get_devices(msc: &MscRegistry) -> (v: Vec<String>)
    ensures
        v@.len() == msc.devices@.len(),
        forall|i: int| 0 <= i < v@.len() ==>
            #[trigger] v@[i]@ == msc.devices@[i].vendor@ + seq![' '] + msc.devices@[i].product@,
{
    let mut v: Vec<String> = Vec::new();
    let mut i: usize = 0;
    while i < msc.devices.len()
        invariant
            i <= msc.devices@.len(),
            v@.len() == i,
            forall|k: int| 0 <= k < i ==>
                #[trigger] v@[k]@ == msc.devices@[k].vendor@ + seq![' '] + msc.devices@[k].product@,
        decreases msc.devices@.len() - i,
    {
        let d = &msc.devices[i];
        let mut s = String::new();
        push_str(&mut s, d.vendor.as_str());
        push_char(&mut s, ' ');
        push_str(&mut s, d.product.as_str());
        assert(s@ =~= d.vendor@ + seq![' '] + d.product@);
        v.push(s);
        i = i + 1;
    }
    v
}

/// Get total MSC device count
pub fn device_count(msc: &MscRegistry) -> (n: usize)
    ensures
        n == msc.devices@.len(),
{
    msc.devices.len()
}

/// Register a mass storage device (interface 0, endpoints 0x81 in and 0x02 out,
/// "USB Storage", 512-byte blocks, capacity unknown) for each enumerated USB device
/// of the mass storage class, in order.
pub fn init(msc: &mut MscRegistry, usb: &UsbRegistry)
    ensures
        ({
            let found = of_class(usb.devices@, UsbClass::MassStorage);
            &&& final(msc).devices@.len() == old(msc).devices@.len() + found.len()
            &&& forall|k: int| 0 <= k < old(msc).devices@.len() ==> #[trigger] final(msc).devices@[k] == old(msc).devices@[k]
            &&& forall|k: int| 0 <= k < found.len() ==> {
                let d = #[trigger] final(msc).devices@[old(msc).devices@.len() + k];
                &&& d.usb_device == found[k]
                &&& d.interface == 0
                &&& d.bulk_in == 0x81
                &&& d.bulk_out == 0x02
                &&& d.vendor@ == "USB"@
                &&& d.product@ == "Storage"@
                &&& d.block_size == 512
                &&& d.total_blocks == 0
            }
        }),
{
    let devices = super::get_devices(usb);
    let ghost n0 = msc.devices@.len();
    let mut i: usize = 0;
    while i < devices.len()
        invariant
            i <= devices@.len(),
            devices@ == usb.devices@,
            n0 == old(msc).devices@.len(),
            forall|k: int| 0 <= k < n0 ==> #[trigger] msc.devices@[k] == old(msc).devices@[k],
            ({
                let found = of_class(devices@.subrange(0, i as int), UsbClass::MassStorage);
                &&& msc.devices@.len() == n0 + found.len()
                &&& forall|k: int| 0 <= k < found.len() ==> {
                    let d = #[trigger] msc.devices@[n0 + k];
                    &&& d.usb_device == found[k]
                    &&& d.interface == 0
                    &&& d.bulk_in == 0x81
                    &&& d.bulk_out == 0x02
                    &&& d.vendor@ == "USB"@
                    &&& d.product@ == "Storage"@
                    &&& d.block_size == 512
                    &&& d.total_blocks == 0
                }
            }),
        decreases devices@.len() - i,
    {
        proof {
            let s = devices@.subrange(0, i as int + 1);
            assert(s.drop_last() =~= devices@.subrange(0, i as int));
            reveal(Seq::filter);
        }
        if devices[i].class == UsbClass::MassStorage {
            let mut device = MscDevice::new(devices[i].duplicate(), 0, 0x81, 0x02);
            device.vendor = String::from_str("USB");
            device.product = String::from_str("Storage");
            device.block_size = 512;
            device.total_blocks = 0;
            register_device(msc, device);
        }
        i = i + 1;
    }
    assert(devices@.subrange(0, devices@.len() as int) =~= devices@);
}

} // verus!
