//! Block devices: a uniform interface to sector-addressed storage, and byte-level
//! reads on top of it.
use vstd::prelude::*;

verus! {

/// Block device error types
#[derive(Debug, Clone, Copy, PartialEq, Eq, Structural)]
pub enum BlockError {
    /// Device not found/initialized
    NoDevice,
    /// Invalid sector number
    InvalidSector,
    /// I/O error
    IoError,
    /// Buffer too small
    BufferTooSmall,
    /// Device is read-only
    ReadOnly,
    /// Request queue full
    QueueFull,
    /// No request buffers available
    NoBuffers,
    /// Operation not supported
    NotSupported,
}

/// Block device trait
pub trait BlockDevice {
    /// Number of sectors.
    spec fn spec_sector_count(&self) -> u64;

    /// Bytes per sector.
    spec fn spec_sector_size(&self) -> u32;

    /// Whether writes are refused.
    spec fn spec_read_only(&self) -> bool;

    /// What a successful read of `sector` hands back.
    spec fn sector_data(&self, sector: u64) -> Seq<u8>;

    /// Whether the device took `data` as the contents of `sector`.
    spec fn wrote(&self, sector: u64, data: Seq<u8>) -> bool;

    /// Get the number of sectors
    fn sector_count(&self) -> (n: u64)
        ensures
            n == self.spec_sector_count(),
    ;

    /// Get the sector size in bytes
    fn sector_size(&self) -> (n: u32)
        ensures
            n == self.spec_sector_size(),
    ;

    /// Check if device is read-only
    fn is_read_only(&self) -> (b: bool)
        ensures
            b == self.spec_read_only(),
    ;

    /// Read a sector into the front of `buf`
    fn read_sector(&self, sector: u64, buf: &mut [u8]) -> (r: Result<(), BlockError>)
        ensures
            final(buf)@.len() == old(buf)@.len(),
            r is Ok ==> self.spec_sector_size() <= old(buf)@.len()
                && final(buf)@.subrange(0, self.spec_sector_size() as int) == self.sector_data(sector),
    ;

    /// Write a sector from the front of `data`
    fn write_sector(&self, sector: u64, data: &[u8]) -> (r: Result<(), BlockError>)
        ensures
            r is Ok ==> self.spec_sector_size() <= data@.len() && self.wrote(
                sector,
                data@.take(self.spec_sector_size() as int),
            ),
    ;

    /// Read `count` consecutive sectors into `buf`, one after another
    fn read_sectors(&self, start_sector: u64, count: usize, buf: &mut [u8]) -> (r: Result<(), BlockError>)
        requires
            start_sector + count <= u64::MAX,
        ensures
            final(buf)@.len() == old(buf)@.len(),
            old(buf)@.len() < count * self.spec_sector_size() ==> r == Err::<(), BlockError>(BlockError::BufferTooSmall),
            r is Ok ==> forall|i: int, j: int| 0 <= i < count && 0 <= j < self.spec_sector_size()
                ==> #[trigger] final(buf)@[i * self.spec_sector_size() + j] == self.sector_data((start_sector + i) as u64)[j],
    {
        let sector_size = self.sector_size() as usize;
        match count.checked_mul(sector_size) {
            None => {
                return Err(BlockError::BufferTooSmall);
            },
            Some(total) => {
                if buf.len() < total {
                    return Err(BlockError::BufferTooSmall);
                }
            },
        }
        let mut i: usize = 0;
        while i < count
            invariant
                i <= count,
                sector_size == self.spec_sector_size(),
                count * sector_size <= buf@.len(),
                count * sector_size <= usize::MAX,
                buf@.len() == old(buf)@.len(),
                start_sector + count <= u64::MAX,
                forall|a: int, b: int| 0 <= a < i && 0 <= b < sector_size
                    ==> #[trigger] buf@[a * sector_size + b] == self.sector_data((start_sector + a) as u64)[b],
            decreases count - i,
        {
            proof {
                assert(i * sector_size + sector_size <= count * sector_size) by (nonlinear_arith)
                    requires i < count;
            }
            let offset = i * sector_size;
            let mut tmp: Vec<u8> = Vec::new();
            let mut k: usize = 0;
            while k < sector_size
                invariant
                    k <= sector_size,
                    tmp@.len() == k,
                decreases sector_size - k,
            {
                tmp.push(0);
                k = k + 1;
            }
            let res = self.read_sector(start_sector + i as u64, tmp.as_mut_slice());
            if res.is_err() {
                return res;
            }
            let ghost data = self.sector_data((start_sector + i) as u64);
            let ghost before = buf@;
            let mut j: usize = 0;
            while j < sector_size
                invariant
                    j <= sector_size,
                    tmp@.len() == sector_size,
                    tmp@.subrange(0, sector_size as int) == data,
                    offset == i * sector_size,
                    offset + sector_size <= buf@.len(),
                    offset + sector_size <= usize::MAX,
                    buf@.len() == before.len(),
                    forall|p: int| 0 <= p < buf@.len() && !(offset <= p < offset + j) ==> buf@[p] == before[p],
                    forall|b: int| 0 <= b < j ==> buf@[offset + b] == data[b],
                    forall|a: int, b: int| 0 <= a < i && 0 <= b < sector_size
                        ==> #[trigger] before[a * sector_size + b] == self.sector_data((start_sector + a) as u64)[b],
                decreases sector_size - j,
            {
                buf[offset + j] = tmp[j];
                assert(tmp@[j as int] == tmp@.subrange(0, sector_size as int)[j as int]);
                j = j + 1;
            }
            assert forall|a: int, b: int| 0 <= a < i + 1 && 0 <= b < sector_size
                implies #[trigger] buf@[a * sector_size + b] == self.sector_data((start_sector + a) as u64)[b] by {
                if a < i {
                    assert(a * sector_size + b < i * sector_size) by (nonlinear_arith)
                        requires a < i, b < sector_size, a >= 0;
                    assert(a * sector_size + b >= 0) by (nonlinear_arith)
                        requires a >= 0, b >= 0, sector_size >= 0;
                    assert(buf@[a * sector_size + b] == before[a * sector_size + b]);
                } else {
                    assert(a == i);
                    assert(buf@[offset + b] == data[b]);
                }
            }
            i = i + 1;
        }
        Ok(())
    }

    /// Write `count` consecutive sectors from `data`, one after another
    fn write_sectors(&self, start_sector: u64, count: usize, data: &[u8]) -> (r: Result<(), BlockError>)
        requires
            start_sector + count <= u64::MAX,
        ensures
            self.spec_read_only() ==> r == Err::<(), BlockError>(BlockError::ReadOnly),
            !self.spec_read_only() && data@.len() < count * self.spec_sector_size()
                ==> r == Err::<(), BlockError>(BlockError::BufferTooSmall),
            !self.spec_read_only() && count == 0 ==> r is Ok,
            r is Ok ==> forall|i: int|
                0 <= i < count ==> #[trigger] self.wrote(
                    (start_sector + i) as u64,
                    data@.subrange(i * self.spec_sector_size(), i * self.spec_sector_size() + self.spec_sector_size()),
                ),
    {
        if self.is_read_only() {
            return Err(BlockError::ReadOnly);
        }
        let sector_size = self.sector_size() as usize;
        match count.checked_mul(sector_size) {
            None => {
                return Err(BlockError::BufferTooSmall);
            },
            Some(total) => {
                if data.len() < total {
                    return Err(BlockError::BufferTooSmall);
                }
            },
        }
        let mut i: usize = 0;
        while i < count
            invariant
                i <= count,
                sector_size == self.spec_sector_size(),
                count * sector_size <= data@.len(),
                count * sector_size <= usize::MAX,
                start_sector + count <= u64::MAX,
                !self.spec_read_only(),
                forall|k: int|
                    0 <= k < i ==> #[trigger] self.wrote(
                        (start_sector + k) as u64,
                        data@.subrange(k * sector_size, k * sector_size + sector_size),
                    ),
            decreases count - i,
        {
            proof {
                assert(i * sector_size + sector_size <= count * sector_size) by (nonlinear_arith)
                    requires i < count;
            }
            let offset = i * sector_size;
            let chunk = vstd::slice::slice_subrange(data, offset, offset + sector_size);
            let res = self.write_sector(start_sector + i as u64, chunk);
            if res.is_err() {
                return res;
            }
            assert(chunk@.take(sector_size as int) =~= data@.subrange(i * sector_size, i * sector_size + sector_size));
            i = i + 1;
        }
        Ok(())
    }
}

/// Byte `b` of a device with 512-byte sectors, counted from the start of the disk.
pub open spec fn disk_byte<D: BlockDevice>(dev: &D, b: int) -> u8 {
    dev.sector_data((b / 512) as u64)[b % 512]
}

/// The bytes of the disk from `start`, `len` of them.
pub open spec fn disk_bytes<D: BlockDevice>(dev: &D, start: int, len: int) -> Seq<u8> {
    Seq::new(len as nat, |i: int| disk_byte(dev, start + i))
}

/// Sector `s` of a device with 512-byte sectors was written whole, holding in
/// their places those of the bytes `data` (meant for byte `start` on) that fall in it.
pub open spec fn sector_took<D: BlockDevice>(dev: &D, start: int, data: Seq<u8>, s: int) -> bool {
    exists|b: Seq<u8>|
        b.len() == 512 && #[trigger] dev.wrote(s as u64, b) && forall|k: int|
            0 <= k < 512 && start <= s * 512 + k < start + data.len() ==> #[trigger] b[k] == data[s * 512 + k - start]
}

/// The device took `data` at byte `start`: every 512-byte sector the bytes touch
/// was written with them in their places.
#[verifier::opaque]
pub open spec fn took_bytes<D: BlockDevice>(dev: &D, start: int, data: Seq<u8>) -> bool {
    forall|s: int|
        data.len() > 0 && start / 512 <= s && s * 512 < start + data.len() ==> #[trigger] sector_took(dev, start, data, s)
}

/// What the device took at `start` it took, part by part: the `len` bytes from
/// `off` on were taken at `start + off`.
pub proof fn lemma_took_part<D: BlockDevice>(dev: &D, start: int, data: Seq<u8>, off: int, len: int)
    requires
        took_bytes(dev, start, data),
        start >= 0,
        0 <= off,
        0 < len,
        off + len <= data.len(),
    ensures
        took_bytes(dev, start + off, data.subrange(off, off + len)),
{
    reveal(took_bytes);
    let part = data.subrange(off, off + len);
    assert forall|s: int| part.len() > 0 && (start + off) / 512 <= s && s * 512 < start + off + part.len() implies
        #[trigger] sector_took(dev, start + off, part, s) by {
        assert(start / 512 <= (start + off) / 512) by (nonlinear_arith)
            requires
                start >= 0,
                off >= 0,
        ;
        assert(sector_took(dev, start, data, s));
        let b = choose|b: Seq<u8>|
            b.len() == 512 && #[trigger] dev.wrote(s as u64, b) && forall|k: int|
                0 <= k < 512 && start <= s * 512 + k < start + data.len() ==> #[trigger] b[k] == data[s * 512 + k
                    - start];
        assert forall|k: int| 0 <= k < 512 && start + off <= s * 512 + k < start + off + part.len() implies #[trigger] b[k]
            == part[s * 512 + k - (start + off)] by {
            assert(b[k] == data[s * 512 + k - start]);
        }
    }
}

/// Reads `buf.len()` bytes starting at byte `start_byte`, sector by sector through a
/// 512-byte buffer. Stops at the first failed sector read and returns its error.
/// On a device with 512-byte sectors, success leaves in `buf` the bytes of the disk
/// from `start_byte` on.
pub fn read_bytes<D: BlockDevice>(dev: &D, start_byte: u64, buf: &mut [u8]) -> (r: Result<(), BlockError>)
    ensures
        final(buf)@.len() == old(buf)@.len(),
        old(buf)@.len() == 0 ==> r is Ok,
        r is Ok && dev.spec_sector_size() == 512 ==> forall|i: int|
            0 <= i < final(buf)@.len() ==> #[trigger] final(buf)@[i] == disk_byte(dev, start_byte + i),
{
    let sector_size: u64 = 512;
    let start_sector = start_byte / sector_size;
    let offset_in_sector = (start_byte % sector_size) as usize;
    let mut sector_buf: Vec<u8> = Vec::new();
    let mut k: usize = 0;
    while k < 512
        invariant
            k <= 512,
            sector_buf@.len() == k,
        decreases 512 - k,
    {
        sector_buf.push(0);
        k = k + 1;
    }
    let len = buf.len();
    let mut bytes_read: usize = 0;
    let mut current_sector = start_sector;
    while bytes_read < len
        invariant
            len == buf@.len(),
            buf@.len() == old(buf)@.len(),
            bytes_read <= len,
            sector_buf@.len() == 512,
            start_sector == start_byte / 512,
            offset_in_sector == start_byte % 512,
            current_sector >= start_sector,
            bytes_read < len ==> current_sector as int == (start_byte + bytes_read) / 512,
            bytes_read < len ==> (start_byte + bytes_read) % 512 == (if current_sector == start_sector {
                offset_in_sector as int
            } else {
                0
            }),
            current_sector as int <= (start_byte + bytes_read) / 512 + 1,
            dev.spec_sector_size() == 512 ==> forall|i: int|
                0 <= i < bytes_read ==> #[trigger] buf@[i] == disk_byte(dev, start_byte + i),
        decreases len - bytes_read,
    {
        let res = dev.read_sector(current_sector, sector_buf.as_mut_slice());
        if res.is_err() {
            return res;
        }
        let start_in_sector: usize = if current_sector == start_sector { offset_in_sector } else { 0 };
        let room = 512 - start_in_sector;
        let left = len - bytes_read;
        let bytes_in_sector = if room < left { room } else { left };
        let ghost before = buf@;
        let ghost data = dev.sector_data(current_sector);
        let mut t: usize = 0;
        while t < bytes_in_sector
            invariant
                t <= bytes_in_sector,
                bytes_in_sector <= 512 - start_in_sector,
                start_in_sector < 512,
                bytes_read + bytes_in_sector <= len,
                len == buf@.len(),
                sector_buf@.len() == 512,
                buf@.len() == before.len(),
                dev.spec_sector_size() == 512 ==> sector_buf@.subrange(0, 512) == data,
                forall|p: int| 0 <= p < buf@.len() && !(bytes_read <= p < bytes_read + t) ==> buf@[p] == before[p],
                forall|p: int| bytes_read <= p < bytes_read + t ==> #[trigger] buf@[p] == sector_buf@[start_in_sector + (p - bytes_read)],
            decreases bytes_in_sector - t,
        {
            buf[bytes_read + t] = sector_buf[start_in_sector + t];
            t = t + 1;
        }
        proof {
            let a = start_byte + bytes_read;
            assert(a % 512 == start_in_sector);
            if dev.spec_sector_size() == 512 {
                assert forall|i: int| 0 <= i < bytes_read + bytes_in_sector implies #[trigger] buf@[i]
                    == disk_byte(dev, start_byte + i) by {
                    if i >= bytes_read {
                        let q = i - bytes_read;
                        assert(buf@[i] == sector_buf@[start_in_sector + q]);
                        assert(sector_buf@[start_in_sector + q] == sector_buf@.subrange(0, 512)[start_in_sector + q]);
                        assert((a + q) / 512 == a / 512 && (a + q) % 512 == a % 512 + q) by (nonlinear_arith)
                            requires
                                a % 512 + q < 512,
                                q >= 0,
                                a >= 0,
                        ;
                    } else {
                        assert(buf@[i] == before[i]);
                    }
                }
            }
            let a2 = a + bytes_in_sector;
            if bytes_read + bytes_in_sector < len {
                assert(bytes_in_sector == 512 - start_in_sector);
                assert(a2 / 512 == a / 512 + 1 && a2 % 512 == 0) by (nonlinear_arith)
                    requires
                        a2 == a + 512 - a % 512,
                        a >= 0,
                ;
            }
            assert(a / 512 <= a2 / 512) by (nonlinear_arith)
                requires
                    a <= a2,
                    a >= 0,
            ;
        }
        bytes_read = bytes_read + bytes_in_sector;
        current_sector = current_sector + 1;
    }
    Ok(())
}

/// Capacity in sectors, block size and read-only flag of the block device, if any.
pub fn get_device_info(dev: &Option<crate::drivers::virtio::block::VirtioBlockDevice>) -> (r: Option<(u64, u32, bool)>)
    ensures
        r == (match dev {
            Some(d) => Some((d.capacity, d.block_size, d.read_only)),
            None => None::<(u64, u32, bool)>,
        }),
{
    crate::drivers::virtio::block::get_info(dev)
}

/// Writes `data` at byte `start_byte`, sector by sector: each 512-byte sector it
/// touches is read, patched with its share of `data` and written back. Stops at the
/// first failed read or write and returns its error.
pub fn write_bytes<D: BlockDevice>(dev: &D, start_byte: u64, data: &[u8]) -> (r: Result<(), BlockError>)
    ensures
        data@.len() == 0 ==> r is Ok,
        r is Ok && dev.spec_sector_size() == 512 ==> took_bytes(dev, start_byte as int, data@),
{
    let start_sector = start_byte / 512;
    let offset_in_sector = (start_byte % 512) as usize;
    let len = data.len();
    let mut written: usize = 0;
    let mut current_sector = start_sector;
    while written < len
        invariant
            len == data@.len(),
            written <= len,
            start_sector == start_byte / 512,
            offset_in_sector == start_byte % 512,
            current_sector >= start_sector,
            written < len ==> current_sector as int == (start_byte + written) / 512,
            written < len ==> (start_byte + written) % 512 == (if current_sector == start_sector {
                offset_in_sector as int
            } else {
                0
            }),
            current_sector as int <= (start_byte + written) / 512 + 1,
            written > 0 ==> current_sector > start_sector,
            written > 0 ==> start_byte + written <= current_sector * 512,
            dev.spec_sector_size() == 512 ==> forall|s: int|
                start_sector <= s < current_sector ==> #[trigger] sector_took(dev, start_byte as int, data@, s),
        decreases len - written,
    {
        let mut sector_buf: Vec<u8> = Vec::new();
        let mut k: usize = 0;
        while k < 512
            invariant
                k <= 512,
                sector_buf@.len() == k,
            decreases 512 - k,
        {
            sector_buf.push(0);
            k = k + 1;
        }
        let res = dev.read_sector(current_sector, sector_buf.as_mut_slice());
        if res.is_err() {
            return res;
        }
        let start_in_sector: usize = if current_sector == start_sector { offset_in_sector } else { 0 };
        let room = 512 - start_in_sector;
        let left = len - written;
        let n = if room < left { room } else { left };
        let mut t: usize = 0;
        while t < n
            invariant
                t <= n,
                n <= 512 - start_in_sector,
                start_in_sector < 512,
                written + n <= len,
                len == data@.len(),
                sector_buf@.len() == 512,
                forall|m: int| 0 <= m < t ==> #[trigger] sector_buf@[start_in_sector + m] == data@[written + m],
            decreases n - t,
        {
            sector_buf.set(start_in_sector + t, data[written + t]);
            t = t + 1;
        }
        let res = dev.write_sector(current_sector, sector_buf.as_slice());
        if res.is_err() {
            return res;
        }
        proof {
            let a = start_byte + written;
            assert(a % 512 == start_in_sector);
            assert(a == current_sector * 512 + start_in_sector) by (nonlinear_arith)
                requires
                    current_sector == a / 512,
                    a % 512 == start_in_sector,
                    a >= 0,
            ;
            if dev.spec_sector_size() == 512 {
                let b = sector_buf@;
                assert(b.take(512) =~= b);
                let cs = current_sector as int;
                assert forall|k: int| 0 <= k < 512 && start_byte <= cs * 512 + k < start_byte + data@.len() implies
                    #[trigger] b[k] == data@[cs * 512 + k - start_byte] by {
                    if written > 0 {
                        assert(start_in_sector == 0);
                    }
                    let m = k - start_in_sector;
                    assert(0 <= m < n);
                    assert(b[start_in_sector + m] == data@[written + m]);
                }
                assert(dev.wrote(cs as u64, b));
                assert(sector_took(dev, start_byte as int, data@, cs));
            }
            let a2 = a + n;
            if written + n < len {
                assert(n == 512 - start_in_sector);
                assert(a2 / 512 == a / 512 + 1 && a2 % 512 == 0) by (nonlinear_arith)
                    requires
                        a2 == a + 512 - a % 512,
                        a >= 0,
                ;
            }
            assert(a / 512 <= a2 / 512) by (nonlinear_arith)
                requires
                    a <= a2,
                    a >= 0,
            ;
            assert(a2 <= (current_sector + 1) * 512) by (nonlinear_arith)
                requires
                    a == current_sector * 512 + start_in_sector,
                    a2 == a + n,
                    n <= 512 - start_in_sector,
            ;
        }
        written = written + n;
        current_sector = current_sector + 1;
    }
    proof {
        reveal(took_bytes);
        if dev.spec_sector_size() == 512 {
            assert forall|s: int| data@.len() > 0 && start_byte as int / 512 <= s && s * 512 < start_byte + data@.len() implies
                #[trigger] sector_took(dev, start_byte as int, data@, s) by {
                assert(s < current_sector) by (nonlinear_arith)
                    requires
                        s * 512 < start_byte + len,
                        start_byte + len <= current_sector * 512,
                ;
            }
        }
    }
    Ok(())
}

} // verus!
