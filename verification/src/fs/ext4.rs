//! Reading ext4 filesystems: the superblock at byte 1024, block-group
//! descriptors, inodes, extent trees of depth 0 and direct or single-indirect
//! block maps, and directory blocks.
//!
//! The disk is any `BlockDevice` with 512-byte sectors, read through
//! `read_bytes`. The decoders below take bytes and say exactly what they find.
use vstd::prelude::*;
use crate::drivers::block::{BlockDevice, read_bytes, disk_byte, disk_bytes};
use crate::text::{lossy_string, utf8_lossy, chars_of, split_chars};
use super::{FsError, FsResult, InodeType, Stat, DirEntry, DirEntryView};
use super::le::{le16_at, le32_at, le64_at, read_le16, read_le32};

verus! {

/// Signature of an ext4 superblock.
pub const EXT4_MAGIC: u16 = 0xEF53;
/// Byte offset of the superblock.
pub const SUPERBLOCK_OFFSET: u64 = 1024;
/// Bytes of the superblock.
pub const SUPERBLOCK_SIZE: usize = 1024;
/// Signature of an extent-tree header.
pub const EXTENT_MAGIC: u16 = 0xF30A;
/// Inode flags.
pub const INODE_FLAG_EXTENTS: u32 = 0x0008_0000;
pub const INODE_FLAG_INLINE_DATA: u32 = 0x1000_0000;
/// File-mode bits.
pub const S_IFMT: u16 = 0o170000;
pub const S_IFSOCK: u16 = 0o140000;
pub const S_IFLNK: u16 = 0o120000;
pub const S_IFREG: u16 = 0o100000;
pub const S_IFBLK: u16 = 0o060000;
pub const S_IFDIR: u16 = 0o040000;
pub const S_IFCHR: u16 = 0o020000;
pub const S_IFIFO: u16 = 0o010000;
/// Directory-entry file types.
pub const DIR_TYPE_UNKNOWN: u8 = 0;
pub const DIR_TYPE_REG_FILE: u8 = 1;
pub const DIR_TYPE_DIR: u8 = 2;
pub const DIR_TYPE_CHRDEV: u8 = 3;
pub const DIR_TYPE_BLKDEV: u8 = 4;
pub const DIR_TYPE_FIFO: u8 = 5;
pub const DIR_TYPE_SOCK: u8 = 6;
pub const DIR_TYPE_SYMLINK: u8 = 7;
/// The root directory's inode.
pub const ROOT_INODE: u32 = 2;

/// The fields of the superblock this driver reads.
#[derive(Debug, Clone, Copy)]
pub struct Superblock {
    pub inodes_count: u32,
    pub blocks_count_lo: u32,
    pub r_blocks_count_lo: u32,
    pub free_blocks_count_lo: u32,
    pub free_inodes_count: u32,
    pub first_data_block: u32,
    pub log_block_size: u32,
    pub blocks_per_group: u32,
    pub inodes_per_group: u32,
    pub magic: u16,
    pub rev_level: u32,
    pub inode_size: u16,
    pub feature_incompat: u32,
    pub volume_name: [u8; 16],
    pub desc_size: u16,
    pub blocks_count_hi: u32,
    pub free_blocks_count_hi: u32,
}

/// The superblock in `b` (at least 348 bytes).
pub open spec fn decode_superblock(b: Seq<u8>) -> Superblock {
    Superblock {
        inodes_count: le32_at(b, 0),
        blocks_count_lo: le32_at(b, 4),
        r_blocks_count_lo: le32_at(b, 8),
        free_blocks_count_lo: le32_at(b, 12),
        free_inodes_count: le32_at(b, 16),
        first_data_block: le32_at(b, 20),
        log_block_size: le32_at(b, 24),
        blocks_per_group: le32_at(b, 32),
        inodes_per_group: le32_at(b, 40),
        magic: le16_at(b, 56),
        rev_level: le32_at(b, 76),
        inode_size: le16_at(b, 88),
        feature_incompat: le32_at(b, 96),
        volume_name: arbitrary(),
        desc_size: le16_at(b, 254),
        blocks_count_hi: le32_at(b, 336),
        free_blocks_count_hi: le32_at(b, 344),
    }
}

/// The superblock's fields match `b` (the volume name being bytes 120..136).
pub open spec fn superblock_matches(s: Superblock, b: Seq<u8>) -> bool {
    &&& s == Superblock { volume_name: s.volume_name, ..decode_superblock(b) }
    &&& s.volume_name@ == b.subrange(120, 136)
}

/// What taking a filesystem from superblock bytes `b` gives: the superblock they
/// hold and its block size when the signature is ext4's and the log block size is
/// below 32, otherwise `InvalidFilesystem`.
pub open spec fn superblock_read(b: Seq<u8>, r: FsResult<Ext4Fs>) -> bool {
    &&& r is Ok <==> decode_superblock(b).magic == EXT4_MAGIC && decode_superblock(b).log_block_size < 32
    &&& r is Err ==> r == Err::<Ext4Fs, FsError>(FsError::InvalidFilesystem)
    &&& r is Ok ==> superblock_matches(r->Ok_0.superblock, b)
        && r->Ok_0.block_size == 1024u32 << decode_superblock(b).log_block_size
}

/// Where a name stored in a fixed field ends: at its first zero byte, or at the
/// field's end.
pub open spec fn name_end(b: Seq<u8>) -> int
    decreases b.len(),
{
    if b.len() == 0 {
        0
    } else if name_end(b.drop_last()) < b.len() - 1 {
        name_end(b.drop_last())
    } else if b.last() == 0 {
        b.len() - 1
    } else {
        b.len() as int
    }
}

impl Superblock {
    /// Reads the superblock fields from `b`.
    pub fn parse(b: &[u8]) -> (s: Superblock)
        requires
            b@.len() >= 348,
        ensures
            superblock_matches(s, b@),
    {
        let mut volume_name = [0u8; 16];
        let mut i: usize = 0;
        while i < 16
            invariant
                i <= 16,
                b@.len() >= 348,
                forall|k: int| 0 <= k < i ==> volume_name@[k] == b@[120 + k],
            decreases 16 - i,
        {
            volume_name[i] = b[120 + i];
            i = i + 1;
        }
        assert(volume_name@ =~= b@.subrange(120, 136));
        Superblock {
            inodes_count: read_le32(b, 0),
            blocks_count_lo: read_le32(b, 4),
            r_blocks_count_lo: read_le32(b, 8),
            free_blocks_count_lo: read_le32(b, 12),
            free_inodes_count: read_le32(b, 16),
            first_data_block: read_le32(b, 20),
            log_block_size: read_le32(b, 24),
            blocks_per_group: read_le32(b, 32),
            inodes_per_group: read_le32(b, 40),
            magic: read_le16(b, 56),
            rev_level: read_le32(b, 76),
            inode_size: read_le16(b, 88),
            feature_incompat: read_le32(b, 96),
            volume_name,
            desc_size: read_le16(b, 254),
            blocks_count_hi: read_le32(b, 336),
            free_blocks_count_hi: read_le32(b, 344),
        }
    }

    /// Block size in bytes: 1024 shifted left by `log_block_size`.
    pub fn block_size(&self) -> (n: u32)
        requires
            self.log_block_size < 32,
        ensures
            n == 1024u32 << self.log_block_size,
    {
        1024u32 << self.log_block_size
    }

    /// Total blocks (both halves).
    pub fn blocks_count(&self) -> (n: u64)
        ensures
            n == self.blocks_count_lo as int + self.blocks_count_hi as int * 0x1_0000_0000,
    {
        let lo = self.blocks_count_lo as u64;
        let hi = self.blocks_count_hi as u64;
        proof {
            crate::bits::lemma_join_halves();
        }
        assert((hi << 32u64) | lo == lo + hi * 0x1_0000_0000);
        (hi << 32) | lo
    }

    /// Number of block groups: the low block count over blocks per group, rounded up.
    pub fn block_groups(&self) -> (n: u32)
        requires
            self.blocks_per_group > 0,
            self.blocks_count_lo + self.blocks_per_group <= u32::MAX,
        ensures
            n == (self.blocks_count_lo + self.blocks_per_group - 1) / self.blocks_per_group as int,
    {
        (self.blocks_count_lo + self.blocks_per_group - 1) / self.blocks_per_group
    }

    /// Whether the signature is ext4's.
    pub fn is_valid(&self) -> (b: bool)
        ensures
            b == (self.magic == EXT4_MAGIC),
    {
        self.magic == EXT4_MAGIC
    }

    /// The volume name: its bytes up to the first zero, read as UTF-8 (invalid
    /// sequences as U+FFFD).
    pub fn volume_name(&self) -> (s: String)
        ensures
            s@ == utf8_lossy(self.volume_name@.subrange(0, name_end(self.volume_name@))),
    {
        let mut end: usize = 0;
        while end < 16 && self.volume_name[end] != 0
            invariant
                end <= 16,
                forall|k: int| 0 <= k < end ==> self.volume_name@[k] != 0,
            decreases 16 - end,
        {
            end = end + 1;
        }
        proof {
            lemma_name_end(self.volume_name@, end as int);
        }
        let bytes = vstd::slice::slice_subrange(self.volume_name.as_slice(), 0, end);
        lossy_string(bytes)
    }
}

/// `e` is where the name in `b` ends when no byte before it is zero and it is the
/// end or a zero byte.
pub proof fn lemma_name_end(b: Seq<u8>, e: int)
    requires
        0 <= e <= b.len(),
        forall|k: int| 0 <= k < e ==> b[k] != 0,
        e == b.len() || b[e] == 0,
    ensures
        name_end(b) == e,
    decreases b.len(),
{
    if b.len() == 0 {
    } else if e == b.len() {
        lemma_name_end_full(b.drop_last());
    } else {
        if e < b.len() - 1 {
            lemma_name_end(b.drop_last(), e);
        } else {
            lemma_name_end_full(b.drop_last());
        }
    }
}

/// With no zero byte, the name fills the field.
pub proof fn lemma_name_end_full(b: Seq<u8>)
    requires
        forall|k: int| 0 <= k < b.len() ==> b[k] != 0,
    ensures
        name_end(b) == b.len(),
    decreases b.len(),
{
    if b.len() > 0 {
        lemma_name_end_full(b.drop_last());
    }
}

/// A 32-byte block-group descriptor.
#[derive(Debug, Clone, Copy, PartialEq, Eq, Structural)]
pub struct BlockGroupDesc32 {
    pub block_bitmap_lo: u32,
    pub inode_bitmap_lo: u32,
    pub inode_table_lo: u32,
    pub free_blocks_count_lo: u16,
    pub free_inodes_count_lo: u16,
    pub used_dirs_count_lo: u16,
    pub flags: u16,
    pub exclude_bitmap_lo: u32,
    pub block_bitmap_csum_lo: u16,
    pub inode_bitmap_csum_lo: u16,
    pub itable_unused_lo: u16,
    pub checksum: u16,
}

/// The descriptor in the first 32 bytes of `b`.
pub open spec fn decode_group_desc(b: Seq<u8>) -> BlockGroupDesc32 {
    BlockGroupDesc32 {
        block_bitmap_lo: le32_at(b, 0),
        inode_bitmap_lo: le32_at(b, 4),
        inode_table_lo: le32_at(b, 8),
        free_blocks_count_lo: le16_at(b, 12),
        free_inodes_count_lo: le16_at(b, 14),
        used_dirs_count_lo: le16_at(b, 16),
        flags: le16_at(b, 18),
        exclude_bitmap_lo: le32_at(b, 20),
        block_bitmap_csum_lo: le16_at(b, 24),
        inode_bitmap_csum_lo: le16_at(b, 26),
        itable_unused_lo: le16_at(b, 28),
        checksum: le16_at(b, 30),
    }
}

impl BlockGroupDesc32 {
    /// Reads a descriptor from `b`.
    pub fn parse(b: &[u8]) -> (d: BlockGroupDesc32)
        requires
            b@.len() >= 32,
        ensures
            d == decode_group_desc(b@),
    {
        BlockGroupDesc32 {
            block_bitmap_lo: read_le32(b, 0),
            inode_bitmap_lo: read_le32(b, 4),
            inode_table_lo: read_le32(b, 8),
            free_blocks_count_lo: read_le16(b, 12),
            free_inodes_count_lo: read_le16(b, 14),
            used_dirs_count_lo: read_le16(b, 16),
            flags: read_le16(b, 18),
            exclude_bitmap_lo: read_le32(b, 20),
            block_bitmap_csum_lo: read_le16(b, 24),
            inode_bitmap_csum_lo: read_le16(b, 26),
            itable_unused_lo: read_le16(b, 28),
            checksum: read_le16(b, 30),
        }
    }
}

/// The fields of an on-disk inode this driver reads (its first 116 bytes).
#[derive(Debug, Clone, Copy)]
pub struct Inode {
    pub mode: u16,
    pub uid: u16,
    pub size_lo: u32,
    pub atime: u32,
    pub ctime: u32,
    pub mtime: u32,
    pub dtime: u32,
    pub gid: u16,
    pub links_count: u16,
    pub blocks_lo: u32,
    pub flags: u32,
    pub osd1: u32,
    /// Block map, or the extent tree's root.
    pub block: [u32; 15],
    pub generation: u32,
    pub file_acl_lo: u32,
    pub size_high: u32,
    pub obso_faddr: u32,
}

/// The inode in `b` (at least 116 bytes), apart from its block map.
pub open spec fn inode_matches(i: Inode, b: Seq<u8>) -> bool {
    &&& i.mode == le16_at(b, 0)
    &&& i.uid == le16_at(b, 2)
    &&& i.size_lo == le32_at(b, 4)
    &&& i.atime == le32_at(b, 8)
    &&& i.ctime == le32_at(b, 12)
    &&& i.mtime == le32_at(b, 16)
    &&& i.dtime == le32_at(b, 20)
    &&& i.gid == le16_at(b, 24)
    &&& i.links_count == le16_at(b, 26)
    &&& i.blocks_lo == le32_at(b, 28)
    &&& i.flags == le32_at(b, 32)
    &&& i.osd1 == le32_at(b, 36)
    &&& forall|k: int| 0 <= k < 15 ==> #[trigger] i.block@[k] == le32_at(b, 40 + 4 * k)
    &&& i.generation == le32_at(b, 100)
    &&& i.file_acl_lo == le32_at(b, 104)
    &&& i.size_high == le32_at(b, 108)
    &&& i.obso_faddr == le32_at(b, 112)
}

/// The extent-tree header at the start of an inode's block map.
#[derive(Debug, Clone, Copy, PartialEq, Eq, Structural)]
pub struct ExtentHeader {
    pub magic: u16,
    pub entries: u16,
    pub max: u16,
    pub depth: u16,
    pub generation: u32,
}

impl ExtentHeader {
    /// Whether the signature is the extent tree's.
    pub fn is_valid(&self) -> (b: bool)
        ensures
            b == (self.magic == EXTENT_MAGIC),
    {
        self.magic == EXTENT_MAGIC
    }
}

/// A leaf extent: file blocks `block .. block + len` are at physical blocks from
/// `start`.
#[derive(Debug, Clone, Copy, PartialEq, Eq, Structural)]
pub struct Extent {
    pub block: u32,
    pub len: u16,
    pub start_hi: u16,
    pub start_lo: u32,
}

impl Extent {
    /// The first physical block (48 bits).
    pub open spec fn spec_start(self) -> int {
        self.start_lo as int + self.start_hi as int * 0x1_0000_0000
    }

    /// The first physical block (48 bits).
    pub fn start(&self) -> (s: u64)
        ensures
            s == self.spec_start(),
    {
        let lo = self.start_lo as u64;
        let hi = self.start_hi as u64;
        proof {
            crate::bits::lemma_join_halves();
        }
        assert((hi << 32u64) | lo == lo + hi * 0x1_0000_0000);
        (hi << 32) | lo
    }
}

/// A directory entry's fixed part.
#[derive(Debug, Clone, Copy, PartialEq, Eq, Structural)]
pub struct DirEntryDisk {
    pub inode: u32,
    pub rec_len: u16,
    pub name_len: u8,
    pub file_type: u8,
}

/// The kind of file a mode's type bits name (directories and symlinks; all else
/// is a file).
pub open spec fn mode_type(mode: u16) -> InodeType {
    if mode & S_IFMT == S_IFDIR {
        InodeType::Directory
    } else if mode & S_IFMT == S_IFLNK {
        InodeType::Symlink
    } else {
        InodeType::File
    }
}

/// The extent header in an inode's block map (its first 12 bytes).
pub open spec fn extent_header_of(i: Inode) -> ExtentHeader {
    ExtentHeader {
        magic: (i.block@[0] & 0xffff) as u16,
        entries: (i.block@[0] >> 16u32) as u16,
        max: (i.block@[1] & 0xffff) as u16,
        depth: (i.block@[1] >> 16u32) as u16,
        generation: i.block@[2],
    }
}

/// Leaf extent `k` (0 to 3) in an inode's block map.
pub open spec fn extent_of(i: Inode, k: int) -> Extent {
    Extent {
        block: i.block@[3 + 3 * k],
        len: (i.block@[4 + 3 * k] & 0xffff) as u16,
        start_hi: (i.block@[4 + 3 * k] >> 16u32) as u16,
        start_lo: i.block@[5 + 3 * k],
    }
}

/// The physical block of `logical` in the first `n` leaf extents, the first that
/// covers it.
pub open spec fn extent_lookup(i: Inode, logical: u32, n: int) -> Option<u64>
    decreases n,
{
    if n <= 0 {
        None
    } else {
        match extent_lookup(i, logical, n - 1) {
            Some(p) => Some(p),
            None => {
                let e = extent_of(i, n - 1);
                if e.block <= logical < e.block + e.len {
                    Some((e.spec_start() + (logical - e.block)) as u64)
                } else {
                    None
                }
            },
        }
    }
}

/// How many leaf extents the inode holds: the header's count, at most the four
/// that fit in the block map.
pub open spec fn leaf_count(i: Inode) -> int {
    let n = extent_header_of(i).entries as int;
    if n < 4 { n } else { 4 }
}

impl Inode {
    /// Reads an inode from `b`.
    pub fn parse(b: &[u8]) -> (i: Inode)
        requires
            b@.len() >= 116,
        ensures
            inode_matches(i, b@),
    {
        let mut block = [0u32; 15];
        let mut k: usize = 0;
        while k < 15
            invariant
                k <= 15,
                b@.len() >= 116,
                forall|j: int| 0 <= j < k ==> #[trigger] block@[j] == le32_at(b@, 40 + 4 * j),
            decreases 15 - k,
        {
            block[k] = read_le32(b, 40 + 4 * k);
            k = k + 1;
        }
        Inode {
            mode: read_le16(b, 0),
            uid: read_le16(b, 2),
            size_lo: read_le32(b, 4),
            atime: read_le32(b, 8),
            ctime: read_le32(b, 12),
            mtime: read_le32(b, 16),
            dtime: read_le32(b, 20),
            gid: read_le16(b, 24),
            links_count: read_le16(b, 26),
            blocks_lo: read_le32(b, 28),
            flags: read_le32(b, 32),
            osd1: read_le32(b, 36),
            block,
            generation: read_le32(b, 100),
            file_acl_lo: read_le32(b, 104),
            size_high: read_le32(b, 108),
            obso_faddr: read_le32(b, 112),
        }
    }

    /// File size (both halves).
    pub open spec fn spec_size(self) -> int {
        self.size_lo as int + self.size_high as int * 0x1_0000_0000
    }

    /// File size (both halves).
    pub fn size(&self) -> (n: u64)
        ensures
            n == self.spec_size(),
    {
        let lo = self.size_lo as u64;
        let hi = self.size_high as u64;
        proof {
            crate::bits::lemma_join_halves();
        }
        assert((hi << 32u64) | lo == lo + hi * 0x1_0000_0000);
        (hi << 32) | lo
    }

    /// The kind of file (see `mode_type`).
    pub fn file_type(&self) -> (t: InodeType)
        ensures
            t == mode_type(self.mode),
    {
        let t = self.mode & S_IFMT;
        if t == S_IFDIR {
            InodeType::Directory
        } else if t == S_IFLNK {
            InodeType::Symlink
        } else {
            InodeType::File
        }
    }

    /// Whether the block map is an extent tree.
    pub fn uses_extents(&self) -> (b: bool)
        ensures
            b == (self.flags & INODE_FLAG_EXTENTS != 0),
    {
        (self.flags & INODE_FLAG_EXTENTS) != 0
    }

    /// Permission bits (rwxrwxrwx).
    pub fn permissions(&self) -> (p: u16)
        ensures
            p == self.mode & 0o777,
    {
        self.mode & 0o777
    }

    /// The extent header at the start of the block map.
    pub fn extent_header(&self) -> (h: ExtentHeader)
        ensures
            h == extent_header_of(*self),
    {
        ExtentHeader {
            magic: (self.block[0] & 0xffff) as u16,
            entries: (self.block[0] >> 16) as u16,
            max: (self.block[1] & 0xffff) as u16,
            depth: (self.block[1] >> 16) as u16,
            generation: self.block[2],
        }
    }

    /// Leaf extent `k` of the block map.
    pub fn extent(&self, k: usize) -> (e: Extent)
        requires
            k < 4,
        ensures
            e == extent_of(*self, k as int),
    {
        Extent {
            block: self.block[3 + 3 * k],
            len: (self.block[4 + 3 * k] & 0xffff) as u16,
            start_hi: (self.block[4 + 3 * k] >> 16) as u16,
            start_lo: self.block[5 + 3 * k],
        }
    }

    /// The physical block of file block `logical` by the extent tree: an invalid
    /// header is an invalid filesystem; with depth 0 the first covering leaf
    /// extent gives it; otherwise, or with none covering it, it is not found.
    pub fn extent_block(&self, logical: u32) -> (r: FsResult<u64>)
        ensures
            extent_header_of(*self).magic != EXTENT_MAGIC ==> r == Err::<u64, FsError>(FsError::InvalidFilesystem),
            extent_header_of(*self).magic == EXTENT_MAGIC ==> r == (if extent_header_of(*self).depth == 0 {
                match extent_lookup(*self, logical, leaf_count(*self)) {
                    Some(p) => Ok::<u64, FsError>(p),
                    None => Err::<u64, FsError>(FsError::NotFound),
                }
            } else {
                Err::<u64, FsError>(FsError::NotFound)
            }),
    {
        let header = self.extent_header();
        if !header.is_valid() {
            return Err(FsError::InvalidFilesystem);
        }
        if header.depth == 0 {
            let n: usize = if header.entries < 4 { header.entries as usize } else { 4 };
            let mut k: usize = 0;
            while k < n
                invariant
                    k <= n,
                    header == extent_header_of(*self),
                    header.magic == EXTENT_MAGIC,
                    header.depth == 0,
                    n == leaf_count(*self),
                    n <= 4,
                    extent_lookup(*self, logical, k as int) is None,
                decreases n - k,
            {
                let e = self.extent(k);
                let len = e.len as u64;
                if (logical as u64) >= (e.block as u64) && (logical as u64) < (e.block as u64) + len {
                    let off = (logical - e.block) as u64;
                    let p = e.start() + off;
                    proof {
                        lemma_extent_lookup_rest(*self, logical, (k + 1) as int, n as int);
                    }
                    return Ok(p);
                }
                k = k + 1;
            }
        }
        Err(FsError::NotFound)
    }
}

/// Once an extent covers the block, later extents do not change the answer.
pub proof fn lemma_extent_lookup_rest(i: Inode, logical: u32, k: int, n: int)
    requires
        0 <= k <= n,
        extent_lookup(i, logical, k) is Some,
    ensures
        extent_lookup(i, logical, n) == extent_lookup(i, logical, k),
    decreases n - k,
{
    if k < n {
        lemma_extent_lookup_rest(i, logical, k, n - 1);
    }
}

/// One parsed directory entry: inode, name bytes, file type.
pub open spec fn dir_entry_view(inode: u32, name: Seq<u8>, file_type: u8) -> DirEntryView {
    DirEntryView {
        name: utf8_lossy(name),
        inode: inode as u64,
        inode_type: if file_type == DIR_TYPE_DIR {
            InodeType::Directory
        } else if file_type == DIR_TYPE_SYMLINK {
            InodeType::Symlink
        } else {
            InodeType::File
        },
        size: 0,
    }
}

/// The entries of a directory block from byte `offset` on: each record's inode,
/// length, name length and type, then its name; records with inode 0 or an empty
/// name, or whose name runs past the buffer, are skipped; a zero record length or
/// a record past the buffer ends the block.
pub open spec fn dir_block_entries(buf: Seq<u8>, block_size: int, offset: int) -> Seq<DirEntryView>
    decreases (if block_size > offset { block_size - offset } else { 0int }),
{
    if offset < 0 || offset >= block_size || offset + 8 > buf.len() {
        Seq::empty()
    } else {
        let inode = le32_at(buf, offset);
        let rec_len = le16_at(buf, offset + 4);
        let name_len = buf[offset + 6];
        let file_type = buf[offset + 7];
        if rec_len == 0 {
            Seq::empty()
        } else {
            let name_end = offset + 8 + name_len;
            let here = if inode != 0 && name_len > 0 && name_end <= buf.len() {
                seq![dir_entry_view(inode, buf.subrange(offset + 8, name_end), file_type)]
            } else {
                Seq::empty()
            };
            here + dir_block_entries(buf, block_size, offset + rec_len)
        }
    }
}

/// The entries of one directory block (see `dir_block_entries`).
pub fn parse_dir_block(buf: &[u8], block_size: u32) -> (r: Vec<DirEntry>)
    ensures
        r@.map_values(|e: DirEntry| e@) == dir_block_entries(buf@, block_size as int, 0),
{
    let mut entries: Vec<DirEntry> = Vec::new();
    let len = buf.len() as u64;
    let mut offset: u64 = 0;
    let ghost total = dir_block_entries(buf@, block_size as int, 0);
    let mut done = false;
    while !done && offset < block_size as u64 && offset + 8 <= len
        invariant
            len == buf@.len(),
            buf@.len() <= usize::MAX,
            done ==> dir_block_entries(buf@, block_size as int, offset as int) =~= Seq::<DirEntryView>::empty(),
            offset <= block_size as int + 0x10000,
            total == entries@.map_values(|e: DirEntry| e@) + dir_block_entries(buf@, block_size as int, offset as int),
        decreases (if block_size as int > offset { block_size as int - offset } else { 0int }), (if done { 0int } else { 1int }),
    {
        let at = offset as usize;
        let inode = read_le32(buf, at);
        let rec_len = read_le16(buf, at + 4);
        let name_len = buf[at + 6];
        let file_type = buf[at + 7];
        if rec_len == 0 {
            done = true;
        } else {
        let ghost before = entries@.map_values(|e: DirEntry| e@);
        let name_end = offset + 8 + name_len as u64;
        if inode != 0 && name_len > 0 && name_end <= len {
            let name_bytes = vstd::slice::slice_subrange(buf, at + 8, name_end as usize);
            let name = lossy_string(name_bytes);
            let inode_type = if file_type == DIR_TYPE_DIR {
                InodeType::Directory
            } else if file_type == DIR_TYPE_SYMLINK {
                InodeType::Symlink
            } else {
                InodeType::File
            };
            entries.push(DirEntry { name, inode: inode as u64, inode_type, size: 0 });
            assert(entries@.map_values(|e: DirEntry| e@) =~= before.push(
                dir_entry_view(inode, buf@.subrange(offset + 8, name_end as int), file_type),
            ));
        }
        offset = offset + rec_len as u64;
        proof {
            let here = if inode != 0 && name_len > 0 && name_end <= len {
                seq![dir_entry_view(inode, buf@.subrange(at + 8, name_end as int), file_type)]
            } else {
                Seq::empty()
            };
            assert(before + here =~= entries@.map_values(|e: DirEntry| e@));
            assert(total == before + (here + dir_block_entries(buf@, block_size as int, offset as int)));
            assert(before + (here + dir_block_entries(buf@, block_size as int, offset as int)) =~= entries@.map_values(
                |e: DirEntry| e@,
            ) + dir_block_entries(buf@, block_size as int, offset as int));
        }
        }
    }
    proof {
        assert(dir_block_entries(buf@, block_size as int, offset as int) =~= Seq::<DirEntryView>::empty());
        assert(total =~= entries@.map_values(|e: DirEntry| e@));
    }
    entries
}

/// Reads `len` bytes of the disk from byte `offset` into a new buffer; a failed
/// read is an I/O error.
fn read_disk<D: BlockDevice>(dev: &D, offset: u64, len: usize) -> (r: FsResult<Vec<u8>>)
    ensures
        r is Err ==> r == Err::<Vec<u8>, FsError>(FsError::IoError),
        r is Ok ==> r->Ok_0@.len() == len && (dev.spec_sector_size() == 512 ==> r->Ok_0@ == disk_bytes(
            dev,
            offset as int,
            len as int,
        )),
{
    let mut buf: Vec<u8> = Vec::new();
    let mut i: usize = 0;
    while i < len
        invariant
            i <= len,
            buf@.len() == i,
        decreases len - i,
    {
        buf.push(0);
        i = i + 1;
    }
    match read_bytes(dev, offset, buf.as_mut_slice()) {
        Ok(()) => {
            assert(dev.spec_sector_size() == 512 ==> buf@ =~= disk_bytes(dev, offset as int, len as int));
            Ok(buf)
        },
        Err(_) => Err(FsError::IoError),
    }
}

/// A mounted ext4 filesystem: its superblock and block size.
#[derive(Debug, Clone, Copy)]
pub struct Ext4Fs {
    pub superblock: Superblock,
    pub block_size: u32,
}

/// Byte offset of the descriptor of block group `bg`: the table starts in block 2
/// with 1024-byte blocks and in block 1 otherwise.
pub open spec fn desc_offset(block_size: u32, bg: int) -> int {
    (if block_size == 1024 { 2int } else { 1int }) * block_size + bg * 32
}

/// The inode's 256-byte image: its `inode_size` bytes from the inode table, then
/// zeros.
pub open spec fn inode_image<D: BlockDevice>(dev: &D, fs: Ext4Fs, n: u32) -> Seq<u8> {
    let ipg = fs.superblock.inodes_per_group;
    let bg = (n - 1) / ipg as int;
    let index = (n - 1) % ipg as int;
    let desc = decode_group_desc(disk_bytes(dev, desc_offset(fs.block_size, bg), 32));
    let size = fs.superblock.inode_size as int;
    let at = desc.inode_table_lo as int * fs.block_size + index * size;
    disk_bytes(dev, at, size) + Seq::new((256 - size) as nat, |i: int| 0u8)
}

/// Only one inode matches an image.
pub proof fn lemma_inode_unique(a: Inode, c: Inode, b: Seq<u8>)
    requires
        inode_matches(a, b),
        inode_matches(c, b),
    ensures
        a == c,
{
    assert(a.block =~= c.block);
}

/// Inode `n` as the disk holds it (see `inode_image`).
pub open spec fn inode_at<D: BlockDevice>(dev: &D, fs: Ext4Fs, n: u32) -> Inode {
    choose|i: Inode| inode_matches(i, inode_image(dev, fs, n))
}

/// The physical block of file block `b` of inode `i`, as the driver finds it
/// (meaningful when it finds one): from the leaf extents, from the direct block
/// pointers, or from the single indirect block.
pub open spec fn data_block<D: BlockDevice>(dev: &D, fs: Ext4Fs, i: Inode, b: u32) -> u64 {
    if i.flags & INODE_FLAG_EXTENTS != 0 {
        match extent_lookup(i, b, leaf_count(i)) {
            Some(p) => p,
            None => 0,
        }
    } else if b < 12 {
        i.block@[b as int] as u64
    } else {
        le32_at(disk_bytes(dev, i.block@[12] as int * fs.block_size, fs.block_size as int), (b - 12) * 4) as u64
    }
}

/// How many blocks of `bs` bytes the inode's size takes.
pub open spec fn blocks_of(i: Inode, bs: int) -> int {
    if i.spec_size() % bs != 0 {
        i.spec_size() / bs + 1
    } else {
        i.spec_size() / bs
    }
}

/// The bytes of block `p`.
pub open spec fn block_bytes<D: BlockDevice>(dev: &D, fs: Ext4Fs, p: u64) -> Seq<u8> {
    disk_bytes(dev, p * fs.block_size, fs.block_size as int)
}

/// The directory entries of the first `n` blocks of inode `i`, block by block; a
/// hole (block 0) holds none.
pub open spec fn dir_entries_upto<D: BlockDevice>(dev: &D, fs: Ext4Fs, i: Inode, n: nat) -> Seq<DirEntryView>
    decreases n,
{
    if n == 0 {
        Seq::empty()
    } else {
        let p = data_block(dev, fs, i, (n - 1) as u32);
        dir_entries_upto(dev, fs, i, (n - 1) as nat) + if p == 0 {
            Seq::<DirEntryView>::empty()
        } else {
            dir_block_entries(block_bytes(dev, fs, p), fs.block_size as int, 0)
        }
    }
}

/// The entries of directory inode `i` as the driver lists them.
pub open spec fn dir_listing<D: BlockDevice>(dev: &D, fs: Ext4Fs, i: Inode) -> Seq<DirEntryView> {
    dir_entries_upto(dev, fs, i, blocks_of(i, fs.block_size as int) as nat)
}

/// The bytes of the first `n` blocks of inode `i`, block after block; a hole
/// (block 0) reads as zeros.
pub open spec fn file_blocks_upto<D: BlockDevice>(dev: &D, fs: Ext4Fs, i: Inode, n: nat) -> Seq<u8>
    decreases n,
{
    if n == 0 {
        Seq::empty()
    } else {
        let p = data_block(dev, fs, i, (n - 1) as u32);
        file_blocks_upto(dev, fs, i, (n - 1) as nat) + if p == 0 {
            Seq::new(fs.block_size as nat, |k: int| 0u8)
        } else {
            block_bytes(dev, fs, p)
        }
    }
}

/// The contents of file inode `i`: its size in bytes along its blocks.
pub open spec fn file_content<D: BlockDevice>(dev: &D, fs: Ext4Fs, i: Inode) -> Seq<u8> {
    file_blocks_upto(dev, fs, i, blocks_of(i, fs.block_size as int) as nat).take(i.spec_size())
}

/// The first of `entries` named `name`; the length when none is.
pub open spec fn first_entry_named(entries: Seq<DirEntryView>, name: Seq<char>) -> int
    decreases entries.len(),
{
    if entries.len() == 0 {
        0
    } else if entries[0].name == name {
        0
    } else {
        1 + first_entry_named(entries.drop_first(), name)
    }
}

/// `j` is the first of `entries` named `name` when none before it is and it is
/// the end or named so.
pub proof fn lemma_first_entry_named(entries: Seq<DirEntryView>, name: Seq<char>, j: int)
    requires
        0 <= j <= entries.len(),
        forall|m: int| 0 <= m < j ==> (#[trigger] entries[m]).name != name,
        j < entries.len() ==> entries[j].name == name,
    ensures
        first_entry_named(entries, name) == j,
    decreases entries.len(),
{
    if entries.len() > 0 && j > 0 {
        assert forall|m: int| 0 <= m < j - 1 implies (#[trigger] entries.drop_first()[m]).name != name by {
            assert(entries.drop_first()[m] == entries[m + 1]);
        }
        if j - 1 < entries.len() - 1 {
            assert(entries.drop_first()[j - 1] == entries[j]);
        }
        lemma_first_entry_named(entries.drop_first(), name, j - 1);
        assert(entries[0].name != name);
    }
}

/// The inode the path components `parts`, from the `i`-th on, reach from inode
/// `current`: empty components are skipped; each other one is looked up by name
/// in the current inode's directory listing (the first entry with that name),
/// which must be a directory among the filesystem's inodes; `None` when a lookup
/// fails.
pub open spec fn walk_path<D: BlockDevice>(dev: &D, fs: Ext4Fs, parts: Seq<Seq<char>>, i: int, current: u32) -> Option<
    u32,
>
    decreases parts.len() - i,
{
    if i < 0 || i >= parts.len() {
        Some(current)
    } else if parts[i].len() == 0 {
        walk_path(dev, fs, parts, i + 1, current)
    } else {
        let node = inode_at(dev, fs, current);
        let entries = dir_listing(dev, fs, node);
        let k = first_entry_named(entries, parts[i]);
        if current == 0 || current > fs.superblock.inodes_count || mode_type(node.mode) != InodeType::Directory || !(0
            <= k < entries.len()) {
            None
        } else {
            walk_path(dev, fs, parts, i + 1, entries[k].inode as u32)
        }
    }
}

/// Every block adds a block's worth of bytes.
pub proof fn lemma_file_blocks_len<D: BlockDevice>(dev: &D, fs: Ext4Fs, i: Inode, n: nat)
    ensures
        file_blocks_upto(dev, fs, i, n).len() == n * fs.block_size,
    decreases n,
{
    if n > 0 {
        lemma_file_blocks_len(dev, fs, i, (n - 1) as nat);
        let p = data_block(dev, fs, i, (n - 1) as u32);
        assert(block_bytes(dev, fs, p).len() == fs.block_size);
        assert(Seq::new(fs.block_size as nat, |k: int| 0u8).len() == fs.block_size);
        assert(file_blocks_upto(dev, fs, i, n).len() == file_blocks_upto(dev, fs, i, (n - 1) as nat).len()
            + fs.block_size);
        let m = (n - 1) as nat;
        let bs = fs.block_size as int;
        assert(m * bs + bs == n * bs) by (nonlinear_arith)
            requires
                m == n - 1,
        ;
    } else {
        assert(n * fs.block_size == 0) by (nonlinear_arith)
            requires
                n == 0,
        ;
    }
}

/// The metadata `stat` reports for an inode.
pub open spec fn stat_of(n: u32, i: Inode) -> Stat {
    Stat {
        inode: n as u64,
        inode_type: mode_type(i.mode),
        size: i.spec_size() as usize,
        permissions: i.mode & 0o777,
        uid: i.uid as u32,
        gid: i.gid as u32,
    }
}

impl Ext4Fs {
    /// Reads the superblock at byte 1024 and takes the filesystem from it (see
    /// `from_superblock`): an I/O error when the read fails.
    pub fn mount<D: BlockDevice>(dev: &D) -> (r: FsResult<Ext4Fs>)
        ensures
            r is Err ==> r == Err::<Ext4Fs, FsError>(FsError::IoError) || r == Err::<Ext4Fs, FsError>(
                FsError::InvalidFilesystem,
            ),
            r is Ok ==> r->Ok_0.superblock.magic == EXT4_MAGIC && r->Ok_0.superblock.log_block_size < 32
                && r->Ok_0.block_size == 1024u32 << r->Ok_0.superblock.log_block_size,
            dev.spec_sector_size() == 512 ==> r == Err::<Ext4Fs, FsError>(FsError::IoError)
                || superblock_read(disk_bytes(dev, 1024, 1024), r),
    {
        let buf = match read_disk(dev, SUPERBLOCK_OFFSET, SUPERBLOCK_SIZE) {
            Ok(b) => b,
            Err(e) => {
                return Err(e);
            },
        };
        Self::from_superblock(buf.as_slice())
    }

    /// The filesystem that superblock bytes `b` describe: an invalid filesystem
    /// when the signature is not ext4's or the block size cannot be formed (a log
    /// block size of 32 or more).
    pub fn from_superblock(b: &[u8]) -> (r: FsResult<Ext4Fs>)
        requires
            b@.len() >= 348,
        ensures
            superblock_read(b@, r),
            r is Ok ==> r->Ok_0.superblock.magic == EXT4_MAGIC && r->Ok_0.superblock.log_block_size < 32
                && r->Ok_0.block_size == 1024u32 << r->Ok_0.superblock.log_block_size,
    {
        let superblock = Superblock::parse(b);
        if !superblock.is_valid() {
            return Err(FsError::InvalidFilesystem);
        }
        if superblock.log_block_size >= 32 {
            return Err(FsError::InvalidFilesystem);
        }
        let block_size = superblock.block_size();
        Ok(Ext4Fs { superblock, block_size })
    }

    /// Reads block `block_num` (an I/O error when its offset overflows or the read fails).
    fn read_block<D: BlockDevice>(&self, dev: &D, block_num: u64) -> (r: FsResult<Vec<u8>>)
        ensures
            r is Err ==> r == Err::<Vec<u8>, FsError>(FsError::IoError),
            r is Ok ==> r->Ok_0@.len() == self.block_size && (dev.spec_sector_size() == 512 ==> r->Ok_0@ == disk_bytes(
                dev,
                block_num * self.block_size,
                self.block_size as int,
            )),
    {
        let offset = match block_num.checked_mul(self.block_size as u64) {
            Some(o) => o,
            None => {
                return Err(FsError::IoError);
            },
        };
        read_disk(dev, offset, self.block_size as usize)
    }

    /// Reads inode `inode_num`: not found for 0 or past the inode count;
    /// otherwise from its group's descriptor and the inode table (see
    /// `inode_image`), an I/O error when a read fails.
    pub fn read_inode<D: BlockDevice>(&self, dev: &D, inode_num: u32) -> (r: FsResult<Inode>)
        requires
            self.superblock.inodes_per_group > 0,
            self.superblock.inode_size <= 256,
        ensures
            inode_num == 0 || inode_num > self.superblock.inodes_count ==> r == Err::<Inode, FsError>(FsError::NotFound),
            r is Err ==> r == Err::<Inode, FsError>(FsError::NotFound) || r == Err::<Inode, FsError>(FsError::IoError),
            r == Err::<Inode, FsError>(FsError::NotFound) ==> inode_num == 0 || inode_num > self.superblock.inodes_count,
            r is Ok ==> 0 < inode_num <= self.superblock.inodes_count && (dev.spec_sector_size() == 512 ==> inode_matches(
                r->Ok_0,
                inode_image(dev, *self, inode_num),
            ) && r->Ok_0 == inode_at(dev, *self, inode_num)),
    {
        if inode_num == 0 || inode_num > self.superblock.inodes_count {
            return Err(FsError::NotFound);
        }
        let ipg = self.superblock.inodes_per_group;
        let bg = (inode_num - 1) / ipg;
        let index = (inode_num - 1) % ipg;
        let desc_block: u64 = if self.block_size == 1024 { 2 } else { 1 };
        let desc_offset = desc_block * self.block_size as u64 + bg as u64 * 32;
        let desc_buf = match read_disk(dev, desc_offset, 32) {
            Ok(b) => b,
            Err(e) => {
                return Err(e);
            },
        };
        let desc = BlockGroupDesc32::parse(desc_buf.as_slice());
        let inode_size = self.superblock.inode_size as u64;
        proof {
            assert(index as int * inode_size <= 0xffff_ffff * 256) by (nonlinear_arith)
                requires
                    index <= 0xffff_ffff,
                    inode_size <= 256,
            ;
        }
        let table = match (desc.inode_table_lo as u64).checked_mul(self.block_size as u64) {
            Some(t) => t,
            None => {
                return Err(FsError::IoError);
            },
        };
        let inode_offset = match table.checked_add(index as u64 * inode_size) {
            Some(o) => o,
            None => {
                return Err(FsError::IoError);
            },
        };

        let image = match read_disk(dev, inode_offset, inode_size as usize) {
            Ok(b) => b,
            Err(e) => {
                return Err(e);
            },
        };
        let mut buf = image;
        let ghost read_part = buf@;
        while buf.len() < 256
            invariant
                buf@.len() <= 256,
                read_part.len() <= buf@.len(),
                buf@.subrange(0, read_part.len() as int) == read_part,
                forall|k: int| read_part.len() <= k < buf@.len() ==> buf@[k] == 0,
            decreases 256 - buf@.len(),
        {
            buf.push(0);
            assert(buf@.subrange(0, read_part.len() as int) =~= read_part);
        }
        proof {
            if dev.spec_sector_size() == 512 {
                assert(buf@ =~= inode_image(dev, *self, inode_num));
            }
        }
        let inode = Inode::parse(buf.as_slice());
        proof {
            if dev.spec_sector_size() == 512 {
                let c = inode_at(dev, *self, inode_num);
                lemma_inode_unique(inode, c, buf@);
            }
        }
        Ok(inode)
    }

    /// The physical block of file block `block_num` by the direct and
    /// single-indirect pointers; double and triple indirection are not supported.
    fn get_indirect_block<D: BlockDevice>(&self, dev: &D, inode: &Inode, block_num: u32) -> (r: FsResult<u64>)
        ensures
            block_num < 12 ==> r == Ok::<u64, FsError>(inode.block@[block_num as int] as u64),
            block_num >= 12 + self.block_size / 4 ==> r == Err::<u64, FsError>(FsError::NotSupported),
            r is Ok && dev.spec_sector_size() == 512 && inode.flags & INODE_FLAG_EXTENTS == 0 ==> r->Ok_0 == data_block(
                dev,
                *self,
                *inode,
                block_num,
            ),
            r is Err ==> r == Err::<u64, FsError>(FsError::IoError) || r == Err::<u64, FsError>(FsError::NotSupported),
    {
        let ptrs_per_block = self.block_size / 4;
        if block_num < 12 {
            Ok(inode.block[block_num as usize] as u64)
        } else if (block_num as u64) < 12 + ptrs_per_block as u64 {
            let idx = block_num - 12;
            let indirect_block = inode.block[12] as u64;
            let buf = match self.read_block(dev, indirect_block) {
                Ok(b) => b,
                Err(e) => {
                    return Err(e);
                },
            };
            let at = idx as usize * 4;
            Ok(read_le32(buf.as_slice(), at) as u64)
        } else {
            Err(FsError::NotSupported)
        }
    }

    /// The physical block of file block `block_num`: by the extent tree when the
    /// inode uses one, by the block pointers otherwise.
    fn get_data_block<D: BlockDevice>(&self, dev: &D, inode: &Inode, block_num: u32) -> (r: FsResult<u64>)
        ensures
            inode.flags & INODE_FLAG_EXTENTS != 0 ==> r == (if extent_header_of(*inode).magic != EXTENT_MAGIC {
                Err::<u64, FsError>(FsError::InvalidFilesystem)
            } else if extent_header_of(*inode).depth == 0 {
                match extent_lookup(*inode, block_num, leaf_count(*inode)) {
                    Some(p) => Ok::<u64, FsError>(p),
                    None => Err::<u64, FsError>(FsError::NotFound),
                }
            } else {
                Err::<u64, FsError>(FsError::NotFound)
            }),
            inode.flags & INODE_FLAG_EXTENTS == 0 && block_num < 12 ==> r == Ok::<u64, FsError>(
                inode.block@[block_num as int] as u64,
            ),
            r is Ok && dev.spec_sector_size() == 512 ==> r->Ok_0 == data_block(dev, *self, *inode, block_num),
            r is Err ==> r == Err::<u64, FsError>(FsError::IoError) || r == Err::<u64, FsError>(FsError::NotSupported)
                || r == Err::<u64, FsError>(FsError::InvalidFilesystem) || r == Err::<u64, FsError>(FsError::NotFound),
    {
        if inode.uses_extents() {
            inode.extent_block(block_num)
        } else {
            self.get_indirect_block(dev, inode, block_num)
        }
    }

    /// The entries of directory `inode_num`, block by block (see
    /// `dir_block_entries`), skipping holes; not a directory when the inode is
    /// something else.
    #[verifier::rlimit(40)]
    pub fn read_dir<D: BlockDevice>(&self, dev: &D, inode_num: u32) -> (r: FsResult<Vec<DirEntry>>)
        requires
            self.superblock.inodes_per_group > 0,
            self.superblock.inode_size <= 256,
            self.block_size > 0,
        ensures
            inode_num == 0 || inode_num > self.superblock.inodes_count ==> r == Err::<Vec<DirEntry>, FsError>(
                FsError::NotFound,
            ),
            r is Ok && dev.spec_sector_size() == 512 ==> mode_type(inode_at(dev, *self, inode_num).mode)
                == InodeType::Directory && r->Ok_0@.map_values(|e: DirEntry| e@) == dir_listing(
                dev,
                *self,
                inode_at(dev, *self, inode_num),
            ),
            r == Err::<Vec<DirEntry>, FsError>(FsError::NotADirectory) && dev.spec_sector_size() == 512 ==> mode_type(
                inode_at(dev, *self, inode_num).mode,
            ) != InodeType::Directory,
            dev.spec_sector_size() == 512 && 0 < inode_num <= self.superblock.inodes_count && mode_type(
                inode_at(dev, *self, inode_num).mode,
            ) != InodeType::Directory ==> r == Err::<Vec<DirEntry>, FsError>(FsError::NotADirectory) || r == Err::<
                Vec<DirEntry>,
                FsError,
            >(FsError::IoError),
    {
        let inode = match self.read_inode(dev, inode_num) {
            Ok(i) => i,
            Err(e) => {
                return Err(e);
            },
        };
        if inode.file_type() != InodeType::Directory {
            return Err(FsError::NotADirectory);
        }
        let ghost target = inode_at(dev, *self, inode_num);
        assert(dev.spec_sector_size() == 512 ==> inode == target);
        let mut entries: Vec<DirEntry> = Vec::new();
        let size = inode.size();
        let bs = self.block_size as u64;
        let q = size / bs;
        proof {
            assert(size % bs != 0 ==> q < 0xffff_ffff_ffff_ffff) by (nonlinear_arith)
                requires
                    bs > 0,
                    q == size / bs,
                    size <= 0xffff_ffff_ffff_ffff,
            ;
        }
        let blocks_needed: u64 = if size % bs != 0 { q + 1 } else { q };
        assert(blocks_needed == blocks_of(inode, bs as int));
        let mut block_idx: u64 = 0;
        while block_idx < blocks_needed
            invariant
                self.block_size > 0,
                bs == self.block_size,
                block_idx <= blocks_needed,
                0 < inode_num <= self.superblock.inodes_count,
                dev.spec_sector_size() == 512 ==> inode == inode_at(dev, *self, inode_num),
                mode_type(inode.mode) == InodeType::Directory,
                blocks_needed == blocks_of(inode, bs as int),
                dev.spec_sector_size() == 512 ==> entries@.map_values(|e: DirEntry| e@) == dir_entries_upto(
                    dev,
                    *self,
                    inode,
                    block_idx as nat,
                ),
            decreases blocks_needed - block_idx,
        {
            let ghost before = entries@;
            let phys = match self.get_data_block(dev, &inode, block_idx as u32) {
                Ok(p) => p,
                Err(e) => {
                    return Err(e);
                },
            };
            if phys != 0 {
                let buf = match self.read_block(dev, phys) {
                    Ok(b) => b,
                    Err(e) => {
                        return Err(e);
                    },
                };
                let mut found = parse_dir_block(buf.as_slice(), self.block_size);
                let ghost fv = found@;
                entries.append(&mut found);
                assert(entries@.map_values(|e: DirEntry| e@) =~= before.map_values(|e: DirEntry| e@) + fv.map_values(
                    |e: DirEntry| e@,
                ));
            }
            block_idx = block_idx + 1;
        }
        Ok(entries)
    }

    /// The contents of file `inode_num`: `size` bytes gathered block by block, a
    /// hole reading as zeros; a directory is refused.
    pub fn read_file<D: BlockDevice>(&self, dev: &D, inode_num: u32) -> (r: FsResult<Vec<u8>>)
        requires
            self.superblock.inodes_per_group > 0,
            self.superblock.inode_size <= 256,
            self.block_size > 0,
        ensures
            inode_num == 0 || inode_num > self.superblock.inodes_count ==> r == Err::<Vec<u8>, FsError>(
                FsError::NotFound,
            ),
            r is Ok && dev.spec_sector_size() == 512 ==> mode_type(inode_at(dev, *self, inode_num).mode)
                != InodeType::Directory && r->Ok_0@ == file_content(dev, *self, inode_at(dev, *self, inode_num)),
            r == Err::<Vec<u8>, FsError>(FsError::IsADirectory) && dev.spec_sector_size() == 512 ==> mode_type(
                inode_at(dev, *self, inode_num).mode,
            ) == InodeType::Directory,
            dev.spec_sector_size() == 512 && 0 < inode_num <= self.superblock.inodes_count && mode_type(
                inode_at(dev, *self, inode_num).mode,
            ) == InodeType::Directory ==> r == Err::<Vec<u8>, FsError>(FsError::IsADirectory) || r == Err::<
                Vec<u8>,
                FsError,
            >(FsError::IoError),
    {
        let inode = match self.read_inode(dev, inode_num) {
            Ok(i) => i,
            Err(e) => {
                return Err(e);
            },
        };
        if inode.file_type() == InodeType::Directory {
            return Err(FsError::IsADirectory);
        }
        let ghost target = inode_at(dev, *self, inode_num);
        assert(dev.spec_sector_size() == 512 ==> inode == target);
        let size = inode.size();
        let bs = self.block_size as u64;
        let q = size / bs;
        proof {
            assert(size % bs != 0 ==> q < 0xffff_ffff_ffff_ffff) by (nonlinear_arith)
                requires
                    bs > 0,
                    q == size / bs,
                    size <= 0xffff_ffff_ffff_ffff,
            ;
        }
        let blocks_needed: u64 = if size % bs != 0 { q + 1 } else { q };
        assert(blocks_needed == blocks_of(inode, bs as int));
        let mut data: Vec<u8> = Vec::new();
        let mut block_idx: u64 = 0;
        while block_idx < blocks_needed
            invariant
                self.block_size > 0,
                bs == self.block_size,
                block_idx <= blocks_needed,
                0 < inode_num <= self.superblock.inodes_count,
                data@.len() <= size,
                size == inode.spec_size(),
                dev.spec_sector_size() == 512 ==> inode == inode_at(dev, *self, inode_num),
                mode_type(inode.mode) != InodeType::Directory,
                blocks_needed == blocks_of(inode, bs as int),
                data@.len() == (if block_idx * bs < size { block_idx * bs } else { size as int }),
                dev.spec_sector_size() == 512 ==> data@ == file_blocks_upto(dev, *self, inode, block_idx as nat).take(
                    data@.len() as int,
                ),
            decreases blocks_needed - block_idx,
        {
            let ghost before = data@;
            proof {
                lemma_file_blocks_len(dev, *self, inode, block_idx as nat);
                lemma_file_blocks_len(dev, *self, inode, (block_idx + 1) as nat);
                assert(block_idx * bs + bs == (block_idx + 1) * bs) by (nonlinear_arith);
            }
            let phys = match self.get_data_block(dev, &inode, block_idx as u32) {
                Ok(p) => p,
                Err(e) => {
                    return Err(e);
                },
            };
            let left: u64 = size - data.len() as u64;
            let to_add: usize = if left < bs { left as usize } else { bs as usize };
            let ghost blk = if phys == 0 {
                Seq::new(bs as nat, |k: int| 0u8)
            } else {
                block_bytes(dev, *self, phys)
            };
            if phys == 0 {
                let mut k: usize = 0;
                while k < to_add
                    invariant
                        k <= to_add,
                        to_add <= bs,
                        data@.len() + (to_add - k) <= size,
                        data@ == before + blk.take(k as int),
                        phys == 0,
                        blk == Seq::new(bs as nat, |k: int| 0u8),
                    decreases to_add - k,
                {
                    data.push(0);
                    k = k + 1;
                    assert(data@ =~= before + blk.take(k as int));
                }
            } else {
                let buf = match self.read_block(dev, phys) {
                    Ok(b) => b,
                    Err(e) => {
                        return Err(e);
                    },
                };
                let mut k: usize = 0;
                while k < to_add
                    invariant
                        k <= to_add,
                        to_add <= buf@.len(),
                        data@.len() + (to_add - k) <= size,
                        data@ == before + buf@.take(k as int),
                    decreases to_add - k,
                {
                    data.push(buf[k]);
                    k = k + 1;
                    assert(data@ =~= before + buf@.take(k as int));
                }
                assert(dev.spec_sector_size() == 512 ==> buf@ == blk);
            }
            proof {
                if dev.spec_sector_size() == 512 {
                    let u = file_blocks_upto(dev, *self, inode, block_idx as nat);
                    let u2 = file_blocks_upto(dev, *self, inode, (block_idx + 1) as nat);
                    assert(u2 == u + blk);
                    if before.len() < size {
                        assert(before.len() == block_idx * bs);
                        assert(u.take(before.len() as int) =~= u);
                        assert(u2.take(before.len() + to_add) =~= u + blk.take(to_add as int));
                    } else {
                        assert(to_add == 0);
                        assert(u2.take(before.len() as int) =~= u.take(before.len() as int));
                    }
                }
            }
            block_idx = block_idx + 1;
        }
        proof {
            assert(blocks_needed * bs >= size) by (nonlinear_arith)
                requires
                    bs > 0,
                    q == size / bs,
                    blocks_needed == (if size % bs != 0 { q + 1 } else { q as int }),
            ;
        }
        Ok(data)
    }

    /// Block count, free block count (both halves), block size and volume name.
    pub fn info(&self) -> (r: (u64, u64, u32, String))
        ensures
            r.0 == self.superblock.blocks_count_lo as int + self.superblock.blocks_count_hi as int * 0x1_0000_0000,
            r.1 == self.superblock.free_blocks_count_lo as int + self.superblock.free_blocks_count_hi as int
                * 0x1_0000_0000,
            r.2 == self.block_size,
            r.3@ == utf8_lossy(self.superblock.volume_name@.subrange(0, name_end(self.superblock.volume_name@))),
    {
        let lo = self.superblock.free_blocks_count_lo as u64;
        let hi = self.superblock.free_blocks_count_hi as u64;
        proof {
            crate::bits::lemma_join_halves();
        }
        assert(lo | (hi << 32u64) == lo + hi * 0x1_0000_0000);
        (self.superblock.blocks_count(), lo | (hi << 32), self.block_size, self.superblock.volume_name())
    }

    /// The inode a path names, from the root (inode 2), one non-empty component at
    /// a time, each found by name among the current directory's entries.
    #[verifier::rlimit(40)]
    pub fn lookup<D: BlockDevice>(&self, dev: &D, path: &str) -> (r: FsResult<u32>)
        requires
            self.superblock.inodes_per_group > 0,
            self.superblock.inode_size <= 256,
            self.block_size > 0,
        ensures
            (forall|c: int| 0 <= c < crate::text::split_on(path@, '/').len() ==> crate::text::split_on(path@, '/')[c].len() == 0)
                ==> r == Ok::<u32, FsError>(ROOT_INODE),
            r is Ok && dev.spec_sector_size() == 512 ==> walk_path(dev, *self, crate::text::split_on(path@, '/'), 0, ROOT_INODE)
                == Some(r->Ok_0),
    {
        let parts = split_chars(path, '/');
        let mut current: u32 = ROOT_INODE;
        let mut i: usize = 0;
        while i < parts.len()
            invariant
                i <= parts@.len(),
                self.superblock.inodes_per_group > 0,
                self.superblock.inode_size <= 256,
                self.block_size > 0,
                parts@.len() == crate::text::split_on(path@, '/').len(),
                forall|c: int| 0 <= c < parts@.len() ==> parts@[c]@ == crate::text::split_on(path@, '/')[c],
                (forall|c: int| 0 <= c < i ==> crate::text::split_on(path@, '/')[c].len() == 0) ==> current == ROOT_INODE,
                dev.spec_sector_size() == 512 ==> walk_path(dev, *self, crate::text::split_on(path@, '/'), i as int, current)
                    == walk_path(dev, *self, crate::text::split_on(path@, '/'), 0, ROOT_INODE),
            decreases parts@.len() - i,
        {
            proof {
                assert(parts@[i as int]@ == crate::text::split_on(path@, '/')[i as int]);
            }
            if parts[i].len() > 0 {
                proof {
                    assert(crate::text::split_on(path@, '/')[i as int].len() > 0);
                }
                let entries = match self.read_dir(dev, current) {
                    Ok(e) => e,
                    Err(e) => {
                        return Err(e);
                    },
                };
                let ghost ev = entries@.map_values(|e: DirEntry| e@);
                let ghost part = parts@[i as int]@;
                let mut j: usize = 0;
                let mut found: Option<u64> = None;
                while j < entries.len() && found.is_none()
                    invariant
                        j <= entries@.len(),
                        i < parts@.len(),
                        ev == entries@.map_values(|e: DirEntry| e@),
                        part == parts@[i as int]@,
                        found is None ==> forall|m: int| 0 <= m < j ==> (#[trigger] ev[m]).name != part,
                        found matches Some(ino) ==> j >= 1 && ev[j - 1].name == part && ino == ev[j - 1].inode && forall|
                            m: int,
                        | 0 <= m < j - 1 ==> (#[trigger] ev[m]).name != part,
                    decreases entries@.len() - j + (if found.is_none() { 1int } else { 0int }),
                {
                    let name = chars_of(entries[j].name.as_str());
                    assert(ev[j as int].name == entries@[j as int].name@);
                    if chars_equal(&name, &parts[i]) {
                        found = Some(entries[j].inode);
                    }
                    j = j + 1;
                }
                proof {
                    if dev.spec_sector_size() == 512 {
                        let jj: int = if found is Some { j - 1 } else { j as int };
                        lemma_first_entry_named(ev, part, jj);
                        assert(current != 0 && current <= self.superblock.inodes_count);
                    }
                }
                match found {
                    Some(ino) => {
                        current = ino as u32;
                    },
                    None => {
                        return Err(FsError::NotFound);
                    },
                }
            }
            i = i + 1;
        }
        Ok(current)
    }

    /// The metadata of inode `inode_num` (see `stat_of`).
    pub fn stat<D: BlockDevice>(&self, dev: &D, inode_num: u32) -> (r: FsResult<Stat>)
        requires
            self.superblock.inodes_per_group > 0,
            self.superblock.inode_size <= 256,
        ensures
            inode_num == 0 || inode_num > self.superblock.inodes_count ==> r == Err::<Stat, FsError>(FsError::NotFound),
            r is Err ==> r == Err::<Stat, FsError>(FsError::NotFound) || r == Err::<Stat, FsError>(FsError::IoError),
            r is Ok ==> exists|i: Inode| r == Ok::<Stat, FsError>(#[trigger] stat_of(inode_num, i)) && (dev.spec_sector_size()
                == 512 ==> inode_matches(i, inode_image(dev, *self, inode_num))),
            r is Ok && dev.spec_sector_size() == 512 ==> r->Ok_0 == stat_of(inode_num, inode_at(dev, *self, inode_num)),
    {
        let inode = match self.read_inode(dev, inode_num) {
            Ok(i) => i,
            Err(e) => {
                return Err(e);
            },
        };
        let s = Stat {
            inode: inode_num as u64,
            inode_type: inode.file_type(),
            size: inode.size() as usize,
            permissions: inode.permissions(),
            uid: inode.uid as u32,
            gid: inode.gid as u32,
        };
        assert(s == stat_of(inode_num, inode));
        assert(dev.spec_sector_size() == 512 ==> inode == inode_at(dev, *self, inode_num));
        let r: FsResult<Stat> = Ok(s);
        assert(r == Ok::<Stat, FsError>(stat_of(inode_num, inode)) && (dev.spec_sector_size() == 512 ==> inode_matches(
            inode,
            inode_image(dev, *self, inode_num),
        )));
        r
    }
}

/// Whether two character sequences are equal.
fn chars_equal(a: &Vec<char>, b: &Vec<char>) -> (r: bool)
    ensures
        r == (a@ == b@),
{
    if a.len() != b.len() {
        return false;
    }
    let mut i: usize = 0;
    while i < a.len()
        invariant
            i <= a@.len(),
            a@.len() == b@.len(),
            forall|k: int| 0 <= k < i ==> a@[k] == b@[k],
        decreases a@.len() - i,
    {
        if a[i] != b[i] {
            return false;
        }
        i = i + 1;
    }
    assert(a@ =~= b@);
    true
}

/// Whether the driver's conditions for reading inodes hold.
pub open spec fn fs_usable(fs: Ext4Fs) -> bool {
    fs.superblock.inodes_per_group > 0 && fs.superblock.inode_size <= 256 && fs.block_size > 0
}

/// Whether a filesystem is mounted.
pub fn is_mounted(fs: &Option<Ext4Fs>) -> (b: bool)
    ensures
        b == fs.is_some(),
{
    fs.is_some()
}

/// The entries of the directory at `path` on the mounted filesystem.
pub fn list_dir<D: BlockDevice>(fs: &Option<Ext4Fs>, dev: &D, path: &str) -> (r: FsResult<Vec<DirEntry>>)
    requires
        fs.is_some() ==> fs_usable(fs.unwrap()),
    ensures
        fs.is_none() ==> r == Err::<Vec<DirEntry>, FsError>(FsError::NoFilesystem),
        fs.is_some() && r is Ok && dev.spec_sector_size() == 512 ==> ({
            &&& walk_path(dev, fs.unwrap(), crate::text::split_on(path@, '/'), 0, ROOT_INODE) matches Some(n)
            &&& mode_type(inode_at(dev, fs.unwrap(), n).mode) == InodeType::Directory
            &&& r->Ok_0@.map_values(|e: DirEntry| e@) == dir_listing(dev, fs.unwrap(), inode_at(dev, fs.unwrap(), n))
        }),
{
    match fs {
        None => Err(FsError::NoFilesystem),
        Some(f) => {
            let inode = match f.lookup(dev, path) {
                Ok(i) => i,
                Err(e) => {
                    return Err(e);
                },
            };
            f.read_dir(dev, inode)
        },
    }
}

/// The contents of the file at `path` on the mounted filesystem.
pub fn read_file<D: BlockDevice>(fs: &Option<Ext4Fs>, dev: &D, path: &str) -> (r: FsResult<Vec<u8>>)
    requires
        fs.is_some() ==> fs_usable(fs.unwrap()),
    ensures
        fs.is_none() ==> r == Err::<Vec<u8>, FsError>(FsError::NoFilesystem),
        fs.is_some() && r is Ok && dev.spec_sector_size() == 512 ==> ({
            &&& walk_path(dev, fs.unwrap(), crate::text::split_on(path@, '/'), 0, ROOT_INODE) matches Some(n)
            &&& mode_type(inode_at(dev, fs.unwrap(), n).mode) != InodeType::Directory
            &&& r->Ok_0@ == file_content(dev, fs.unwrap(), inode_at(dev, fs.unwrap(), n))
        }),
{
    match fs {
        None => Err(FsError::NoFilesystem),
        Some(f) => {
            let inode = match f.lookup(dev, path) {
                Ok(i) => i,
                Err(e) => {
                    return Err(e);
                },
            };
            f.read_file(dev, inode)
        },
    }
}

/// The metadata of the file at `path` on the mounted filesystem.
pub fn stat<D: BlockDevice>(fs: &Option<Ext4Fs>, dev: &D, path: &str) -> (r: FsResult<Stat>)
    requires
        fs.is_some() ==> fs_usable(fs.unwrap()),
    ensures
        fs.is_none() ==> r == Err::<Stat, FsError>(FsError::NoFilesystem),
        fs.is_some() && r is Ok && dev.spec_sector_size() == 512 ==> ({
            &&& walk_path(dev, fs.unwrap(), crate::text::split_on(path@, '/'), 0, ROOT_INODE) matches Some(n)
            &&& r->Ok_0 == stat_of(n, inode_at(dev, fs.unwrap(), n))
        }),
{
    match fs {
        None => Err(FsError::NoFilesystem),
        Some(f) => {
            let inode = match f.lookup(dev, path) {
                Ok(i) => i,
                Err(e) => {
                    return Err(e);
                },
            };
            f.stat(dev, inode)
        },
    }
}

/// Block counts, block size and volume name of the mounted filesystem.
pub fn info(fs: &Option<Ext4Fs>) -> (r: Option<(u64, u64, u32, String)>)
    ensures
        r.is_some() == fs.is_some(),
        fs.is_some() ==> r.unwrap().2 == fs.unwrap().block_size,
{
    match fs {
        None => None,
        Some(f) => Some(f.info()),
    }
}

} // verus!
