//! FAT32 volumes: the boot sector, the file allocation table, cluster chains and
//! 8.3 directory entries, read and written through any `BlockDevice` with
//! 512-byte sectors.
use vstd::prelude::*;
use crate::drivers::block::{BlockDevice, BlockError, read_bytes, write_bytes, disk_byte, disk_bytes, took_bytes,
    lemma_took_part};
use crate::text::{to_lowercase, to_uppercase, lowercase_of, uppercase_of, trimmed, trim_whitespace, chars_of, split_chars,
    push_char};
use super::le::{le16_at, le32_at, le32_bytes, read_le16, read_le32, lemma_le16_roundtrip, lemma_le32_roundtrip};
use super::vfs::string_from_utf8;

verus! {

/// Directory-entry attributes.
pub const ATTR_READ_ONLY: u8 = 0x01;
pub const ATTR_HIDDEN: u8 = 0x02;
pub const ATTR_SYSTEM: u8 = 0x04;
pub const ATTR_VOLUME_ID: u8 = 0x08;
pub const ATTR_DIRECTORY: u8 = 0x10;
pub const ATTR_ARCHIVE: u8 = 0x20;
pub const ATTR_LONG_NAME: u8 = 0x0F;

/// FAT entry values.
pub const FAT_FREE: u32 = 0x0000_0000;
pub const FAT_BAD: u32 = 0x0FFF_FFF7;
pub const FAT_END_MIN: u32 = 0x0FFF_FFF8;
pub const FAT_END_MAX: u32 = 0x0FFF_FFFF;

/// The boot sector's parameter block (the fields this driver reads).
#[derive(Debug, Clone, Copy)]
pub struct Fat32BootSector {
    pub bytes_per_sector: u16,
    pub sectors_per_cluster: u8,
    pub reserved_sectors: u16,
    pub num_fats: u8,
    pub root_entry_count: u16,
    pub total_sectors_16: u16,
    pub media_type: u8,
    pub fat_size_16: u16,
    pub sectors_per_track: u16,
    pub num_heads: u16,
    pub hidden_sectors: u32,
    pub total_sectors_32: u32,
    pub fat_size_32: u32,
    pub ext_flags: u16,
    pub fs_version: u16,
    pub root_cluster: u32,
    pub fs_info: u16,
    pub backup_boot_sector: u16,
    pub drive_num: u8,
    pub boot_sig: u8,
    pub volume_id: u32,
    pub volume_label: [u8; 11],
}

/// The boot-sector fields of `b` (at least 90 bytes), apart from the label.
pub open spec fn boot_matches(s: Fat32BootSector, b: Seq<u8>) -> bool {
    &&& s.bytes_per_sector == le16_at(b, 11)
    &&& s.sectors_per_cluster == b[13]
    &&& s.reserved_sectors == le16_at(b, 14)
    &&& s.num_fats == b[16]
    &&& s.root_entry_count == le16_at(b, 17)
    &&& s.total_sectors_16 == le16_at(b, 19)
    &&& s.media_type == b[21]
    &&& s.fat_size_16 == le16_at(b, 22)
    &&& s.sectors_per_track == le16_at(b, 24)
    &&& s.num_heads == le16_at(b, 26)
    &&& s.hidden_sectors == le32_at(b, 28)
    &&& s.total_sectors_32 == le32_at(b, 32)
    &&& s.fat_size_32 == le32_at(b, 36)
    &&& s.ext_flags == le16_at(b, 40)
    &&& s.fs_version == le16_at(b, 42)
    &&& s.root_cluster == le32_at(b, 44)
    &&& s.fs_info == le16_at(b, 48)
    &&& s.backup_boot_sector == le16_at(b, 50)
    &&& s.drive_num == b[64]
    &&& s.boot_sig == b[66]
    &&& s.volume_id == le32_at(b, 67)
    &&& s.volume_label@ == b.subrange(71, 82)
}

impl Fat32BootSector {
    /// Reads the parameter block from `b`.
    pub fn parse(b: &[u8]) -> (s: Fat32BootSector)
        requires
            b@.len() >= 90,
        ensures
            boot_matches(s, b@),
    {
        let mut volume_label = [0u8; 11];
        let mut i: usize = 0;
        while i < 11
            invariant
                i <= 11,
                b@.len() >= 90,
                forall|k: int| 0 <= k < i ==> volume_label@[k] == b@[71 + k],
            decreases 11 - i,
        {
            volume_label[i] = b[71 + i];
            i = i + 1;
        }
        assert(volume_label@ =~= b@.subrange(71, 82));
        Fat32BootSector {
            bytes_per_sector: read_le16(b, 11),
            sectors_per_cluster: b[13],
            reserved_sectors: read_le16(b, 14),
            num_fats: b[16],
            root_entry_count: read_le16(b, 17),
            total_sectors_16: read_le16(b, 19),
            media_type: b[21],
            fat_size_16: read_le16(b, 22),
            sectors_per_track: read_le16(b, 24),
            num_heads: read_le16(b, 26),
            hidden_sectors: read_le32(b, 28),
            total_sectors_32: read_le32(b, 32),
            fat_size_32: read_le32(b, 36),
            ext_flags: read_le16(b, 40),
            fs_version: read_le16(b, 42),
            root_cluster: read_le32(b, 44),
            fs_info: read_le16(b, 48),
            backup_boot_sector: read_le16(b, 50),
            drive_num: b[64],
            boot_sig: b[66],
            volume_id: read_le32(b, 67),
            volume_label,
        }
    }
}

/// A 32-byte directory entry.
#[derive(Debug, Clone, Copy)]
pub struct Fat32DirEntry {
    /// 8.3 name, space padded.
    pub name: [u8; 11],
    pub attr: u8,
    pub nt_res: u8,
    pub crt_time_tenth: u8,
    pub crt_time: u16,
    pub crt_date: u16,
    pub lst_acc_date: u16,
    pub first_cluster_hi: u16,
    pub wrt_time: u16,
    pub wrt_date: u16,
    pub first_cluster_lo: u16,
    pub file_size: u32,
}

/// The entry in `b` at `at` (32 bytes).
pub open spec fn entry_matches(e: Fat32DirEntry, b: Seq<u8>, at: int) -> bool {
    &&& e.name@ == b.subrange(at, at + 11)
    &&& e.attr == b[at + 11]
    &&& e.nt_res == b[at + 12]
    &&& e.crt_time_tenth == b[at + 13]
    &&& e.crt_time == le16_at(b, at + 14)
    &&& e.crt_date == le16_at(b, at + 16)
    &&& e.lst_acc_date == le16_at(b, at + 18)
    &&& e.first_cluster_hi == le16_at(b, at + 20)
    &&& e.wrt_time == le16_at(b, at + 22)
    &&& e.wrt_date == le16_at(b, at + 24)
    &&& e.first_cluster_lo == le16_at(b, at + 26)
    &&& e.file_size == le32_at(b, at + 28)
}

/// The first cluster an entry names.
pub open spec fn first_cluster_of(e: Fat32DirEntry) -> u32 {
    ((e.first_cluster_hi as u32) << 16u32) | (e.first_cluster_lo as u32)
}

impl Fat32DirEntry {
    /// Reads an entry from `b` at `at`.
    pub fn parse(b: &[u8], at: usize) -> (e: Fat32DirEntry)
        requires
            at + 32 <= b@.len(),
        ensures
            entry_matches(e, b@, at as int),
    {
        let _n = b.len();
        let mut name = [0u8; 11];
        let mut i: usize = 0;
        while i < 11
            invariant
                i <= 11,
                at + 32 <= b@.len(),
                _n == b@.len(),
                forall|k: int| 0 <= k < i ==> name@[k] == b@[at + k],
            decreases 11 - i,
        {
            name[i] = b[at + i];
            i = i + 1;
        }
        assert(name@ =~= b@.subrange(at as int, at + 11));
        Fat32DirEntry {
            name,
            attr: b[at + 11],
            nt_res: b[at + 12],
            crt_time_tenth: b[at + 13],
            crt_time: read_le16(b, at + 14),
            crt_date: read_le16(b, at + 16),
            lst_acc_date: read_le16(b, at + 18),
            first_cluster_hi: read_le16(b, at + 20),
            wrt_time: read_le16(b, at + 22),
            wrt_date: read_le16(b, at + 24),
            first_cluster_lo: read_le16(b, at + 26),
            file_size: read_le32(b, at + 28),
        }
    }

    /// The first cluster the entry names.
    pub fn first_cluster(&self) -> (c: u32)
        ensures
            c == first_cluster_of(*self),
    {
        ((self.first_cluster_hi as u32) << 16) | (self.first_cluster_lo as u32)
    }

    /// The entry's 32 bytes.
    pub fn to_bytes(&self) -> (b: Vec<u8>)
        ensures
            b@.len() == 32,
            b@.subrange(0, 11) == self.name@,
            b@[11] == self.attr,
            entry_matches(*self, b@, 0),
    {
        let mut b: Vec<u8> = Vec::new();
        let mut i: usize = 0;
        while i < 11
            invariant
                i <= 11,
                b@.len() == i,
                forall|k: int| 0 <= k < i ==> b@[k] == self.name@[k],
            decreases 11 - i,
        {
            b.push(self.name[i]);
            i = i + 1;
        }
        b.push(self.attr);
        b.push(self.nt_res);
        b.push(self.crt_time_tenth);
        crate::fs::le::push_le16(&mut b, self.crt_time);
        crate::fs::le::push_le16(&mut b, self.crt_date);
        crate::fs::le::push_le16(&mut b, self.lst_acc_date);
        crate::fs::le::push_le16(&mut b, self.first_cluster_hi);
        crate::fs::le::push_le16(&mut b, self.wrt_time);
        crate::fs::le::push_le16(&mut b, self.wrt_date);
        crate::fs::le::push_le16(&mut b, self.first_cluster_lo);
        crate::fs::le::push_le32(&mut b, self.file_size);
        assert(b@.subrange(0, 11) =~= self.name@);
        proof {
            let t = b@;
            assert(t.subrange(14, 16) =~= crate::fs::le::le16_bytes(self.crt_time));
            lemma_le16_roundtrip(self.crt_time, t, 14);
            assert(t.subrange(16, 18) =~= crate::fs::le::le16_bytes(self.crt_date));
            lemma_le16_roundtrip(self.crt_date, t, 16);
            assert(t.subrange(18, 20) =~= crate::fs::le::le16_bytes(self.lst_acc_date));
            lemma_le16_roundtrip(self.lst_acc_date, t, 18);
            assert(t.subrange(20, 22) =~= crate::fs::le::le16_bytes(self.first_cluster_hi));
            lemma_le16_roundtrip(self.first_cluster_hi, t, 20);
            assert(t.subrange(22, 24) =~= crate::fs::le::le16_bytes(self.wrt_time));
            lemma_le16_roundtrip(self.wrt_time, t, 22);
            assert(t.subrange(24, 26) =~= crate::fs::le::le16_bytes(self.wrt_date));
            lemma_le16_roundtrip(self.wrt_date, t, 24);
            assert(t.subrange(26, 28) =~= crate::fs::le::le16_bytes(self.first_cluster_lo));
            lemma_le16_roundtrip(self.first_cluster_lo, t, 26);
            assert(t.subrange(28, 32) =~= le32_bytes(self.file_size));
            lemma_le32_roundtrip(self.file_size, t, 28);
        }
        b
    }
}

/// Errors.
#[derive(Debug, Clone, Copy, PartialEq, Eq, Structural)]
pub enum Fat32Error {
    InvalidFilesystem,
    BlockError(BlockError),
    NotFound,
    NotADirectory,
    NotAFile,
    InvalidPath,
    EndOfFile,
    NoSpace,
    AlreadyExists,
    InvalidFilename,
    NotEmpty,
}

/// A mounted FAT32 volume's geometry.
pub struct Fat32 {
    pub bytes_per_sector: u32,
    pub sectors_per_cluster: u32,
    pub fat_start_sector: u32,
    pub data_start_sector: u32,
    pub root_cluster: u32,
    pub fat_size: u32,
    pub total_clusters: u32,
    pub volume_label: String,
}

/// The volume label: the label bytes as UTF-8 (or "NO NAME" when they are not),
/// without leading and trailing white space.
pub open spec fn label_of(raw: Seq<u8>) -> Seq<char> {
    if vstd::utf8::valid_utf8(raw) {
        trim_whitespace(vstd::utf8::decode_utf8(raw))
    } else {
        trim_whitespace("NO NAME"@)
    }
}

/// The name an 8.3 entry shows: the base up to its first space, then, unless the
/// extension starts with a space, a dot and the extension up to its first space,
/// each byte as the character of that number; then in lower case.
pub open spec fn short_name_chars(raw: Seq<u8>) -> Seq<char> {
    let base = raw.subrange(0, 8).take(first_space(raw.subrange(0, 8)));
    let ext = raw.subrange(8, 11).take(first_space(raw.subrange(8, 11)));
    let b = base.map_values(|c: u8| c as char);
    if raw[8] != 0x20 {
        b.push('.') + ext.map_values(|c: u8| c as char)
    } else {
        b
    }
}

/// Where the first space is, or the length when there is none.
pub open spec fn first_space(s: Seq<u8>) -> int
    decreases s.len(),
{
    if s.len() == 0 {
        0
    } else if first_space(s.drop_last()) < s.len() - 1 {
        first_space(s.drop_last())
    } else if s.last() == 0x20 {
        s.len() - 1
    } else {
        s.len() as int
    }
}

/// `e` is where the first space is when none comes before it and it is the end or a space.
pub proof fn lemma_first_space(s: Seq<u8>, e: int)
    requires
        0 <= e <= s.len(),
        forall|k: int| 0 <= k < e ==> s[k] != 0x20,
        e == s.len() || s[e] == 0x20,
    ensures
        first_space(s) == e,
    decreases s.len(),
{
    if s.len() == 0 {
    } else if e == s.len() {
        lemma_first_space_none(s.drop_last());
    } else if e < s.len() - 1 {
        lemma_first_space(s.drop_last(), e);
    } else {
        lemma_first_space_none(s.drop_last());
    }
}

/// With no space, the whole sequence counts.
pub proof fn lemma_first_space_none(s: Seq<u8>)
    requires
        forall|k: int| 0 <= k < s.len() ==> s[k] != 0x20,
    ensures
        first_space(s) == s.len(),
    decreases s.len(),
{
    if s.len() > 0 {
        lemma_first_space_none(s.drop_last());
    }
}

/// How far the leading characters of `s` equal to `c` reach.
pub open spec fn leading(s: Seq<char>, c: char) -> int
    decreases s.len(),
{
    if s.len() == 0 || s[0] != c {
        0
    } else {
        1 + leading(s.drop_first(), c)
    }
}

/// Leading characters lie within the sequence.
pub proof fn lemma_leading_bound(s: Seq<char>, c: char)
    ensures
        0 <= leading(s, c) <= s.len(),
    decreases s.len(),
{
    if s.len() > 0 && s[0] == c {
        lemma_leading_bound(s.drop_first(), c);
    }
}

/// Whether a boot sector `b` describes a FAT32 volume this driver mounts: the
/// extended boot signature 0x29, no 16-bit FAT size, FAT and data areas whose
/// sector numbers fit in 32 bits and end within the volume, and a non-zero
/// cluster size.
pub open spec fn boot_ok(b: Seq<u8>) -> bool {
    &&& b[66] == 0x29
    &&& le16_at(b, 22) == 0
    &&& b[16] * le32_at(b, 36) <= u32::MAX
    &&& le16_at(b, 14) + b[16] * le32_at(b, 36) <= u32::MAX
    &&& le32_at(b, 32) >= le16_at(b, 14) + b[16] * le32_at(b, 36)
    &&& b[13] != 0
}

/// The volume layout `fs` is the one boot sector `b` gives.
pub open spec fn boot_fields(b: Seq<u8>, fs: Fat32) -> bool {
    &&& fs.bytes_per_sector == le16_at(b, 11)
    &&& fs.sectors_per_cluster == b[13]
    &&& fs.fat_start_sector == le16_at(b, 14)
    &&& fs.data_start_sector == le16_at(b, 14) + b[16] * le32_at(b, 36)
    &&& fs.root_cluster == le32_at(b, 44)
    &&& fs.fat_size == le32_at(b, 36)
    &&& fs.total_clusters == (le32_at(b, 32) - fs.data_start_sector) / (b[13] as int)
    &&& fs.volume_label@ == label_of(b.subrange(71, 82))
}

/// What mounting from boot sector `b` gives: its layout when the sector is
/// acceptable (`boot_ok`), otherwise `InvalidFilesystem`.
pub open spec fn booted(b: Seq<u8>, r: Result<Fat32, Fat32Error>) -> bool {
    &&& r is Ok <==> boot_ok(b)
    &&& r is Err ==> r == Err::<Fat32, Fat32Error>(Fat32Error::InvalidFilesystem)
    &&& r is Ok ==> boot_fields(b, r->Ok_0)
}

/// The FAT entry of cluster `c` on the disk (its low 28 bits): the 32-bit
/// little-endian value at byte `4 c` of the first FAT.
pub open spec fn fat_entry<D: BlockDevice>(dev: &D, fs: Fat32, c: u32) -> u32 {
    le32_at(disk_bytes(dev, fs.fat_start_sector * fs.bytes_per_sector + c * 4, 4), 0) & 0x0FFF_FFFFu32
}

/// The cluster chain from `c` as the FAT links it, at most `fuel` clusters long:
/// it stops at the first number that is not a data cluster.
pub open spec fn chain_from<D: BlockDevice>(dev: &D, fs: Fat32, c: u32, fuel: nat) -> Seq<u32>
    decreases fuel,
{
    if fuel == 0 || !(2 <= c < FAT_END_MIN) {
        Seq::empty()
    } else {
        seq![c] + chain_from(dev, fs, fat_entry(dev, fs, c), (fuel - 1) as nat)
    }
}

/// The bytes of data cluster `c` on the disk.
pub open spec fn cluster_bytes<D: BlockDevice>(dev: &D, fs: Fat32, c: u32) -> Seq<u8> {
    disk_bytes(
        dev,
        (fs.data_start_sector + (c - 2) * fs.sectors_per_cluster) * fs.bytes_per_sector,
        fs.spec_cluster_size(),
    )
}

/// The chain a file or directory starting at `c` has: as long as the volume has
/// clusters, plus one.
pub open spec fn chain_of<D: BlockDevice>(dev: &D, fs: Fat32, c: u32) -> Seq<u32> {
    chain_from(dev, fs, c, (fs.total_clusters + 3) as nat)
}

/// The 32-byte slots of a cluster's bytes, in order.
pub open spec fn cluster_slots(b: Seq<u8>) -> Seq<Seq<u8>> {
    Seq::new((b.len() / 32) as nat, |i: int| b.subrange(32 * i, 32 * i + 32))
}

/// The slots of the clusters `cs` of a directory, cluster after cluster.
pub open spec fn chain_slots<D: BlockDevice>(dev: &D, fs: Fat32, cs: Seq<u32>) -> Seq<Seq<u8>>
    decreases cs.len(),
{
    if cs.len() == 0 {
        Seq::empty()
    } else {
        cluster_slots(cluster_bytes(dev, fs, cs[0])) + chain_slots(dev, fs, cs.drop_first())
    }
}

/// Whether a slot in use is listed: not deleted, not a long-name part, not the
/// volume label.
pub open spec fn listed_slot(s: Seq<u8>) -> bool {
    s[0] != 0xE5 && s[11] != ATTR_LONG_NAME && s[11] & ATTR_VOLUME_ID == 0
}

/// The listed slots among `slots`, up to the first whose name starts with 0.
pub open spec fn listing(slots: Seq<Seq<u8>>) -> Seq<Seq<u8>>
    decreases slots.len(),
{
    if slots.len() == 0 || slots[0][0] == 0 {
        Seq::empty()
    } else {
        (if listed_slot(slots[0]) { seq![slots[0]] } else { Seq::empty() }) + listing(slots.drop_first())
    }
}

/// `entries` are the slots `raws`, in order, each with the name it shows.
pub open spec fn listed_as(entries: Seq<(String, Fat32DirEntry)>, raws: Seq<Seq<u8>>) -> bool {
    &&& entries.len() == raws.len()
    &&& forall|i: int| 0 <= i < entries.len() ==> {
        &&& entry_matches((#[trigger] entries[i]).1, raws[i], 0)
        &&& entries[i].0@ == lowercase_of(short_name_chars(raws[i].subrange(0, 11)))
    }
}

/// The listed slots of the directory whose chain starts at `c`.
pub open spec fn dir_listing<D: BlockDevice>(dev: &D, fs: Fat32, c: u32) -> Seq<Seq<u8>> {
    listing(chain_slots(dev, fs, chain_of(dev, fs, c)))
}

/// The name a slot shows.
pub open spec fn shown_name(raw: Seq<u8>) -> Seq<char> {
    lowercase_of(short_name_chars(raw.subrange(0, 11)))
}

/// The first of `raws` whose shown name, in upper case, is `u`; the length when
/// none is.
pub open spec fn first_named(raws: Seq<Seq<u8>>, u: Seq<char>) -> int
    decreases raws.len(),
{
    if raws.len() == 0 {
        0
    } else if uppercase_of(shown_name(raws[0])) == u {
        0
    } else {
        1 + first_named(raws.drop_first(), u)
    }
}

/// `j` is the first of `raws` named `u` when none before it is and it is the
/// end or named so.
pub proof fn lemma_first_named(raws: Seq<Seq<u8>>, u: Seq<char>, j: int)
    requires
        0 <= j <= raws.len(),
        forall|m: int| 0 <= m < j ==> uppercase_of(shown_name(#[trigger] raws[m])) != u,
        j < raws.len() ==> uppercase_of(shown_name(raws[j])) == u,
    ensures
        first_named(raws, u) == j,
    decreases raws.len(),
{
    if raws.len() > 0 && j > 0 {
        assert forall|m: int| 0 <= m < j - 1 implies uppercase_of(shown_name(#[trigger] raws.drop_first()[m])) != u by {
            assert(raws.drop_first()[m] == raws[m + 1]);
        }
        if j - 1 < raws.len() - 1 {
            assert(raws.drop_first()[j - 1] == raws[j]);
        }
        lemma_first_named(raws.drop_first(), u, j - 1);
        assert(uppercase_of(shown_name(raws[0])) != u);
    }
}

/// The first cluster a slot names.
pub open spec fn slot_cluster(raw: Seq<u8>) -> u32 {
    ((le16_at(raw, 20) as u32) << 16u32) | (le16_at(raw, 26) as u32)
}

/// Where the first slash of `s` is, or its length when there is none.
pub open spec fn first_slash(s: Seq<char>) -> int
    decreases s.len(),
{
    if s.len() == 0 {
        0
    } else if s[0] == '/' {
        0
    } else {
        1 + first_slash(s.drop_first())
    }
}

/// `n` is where the first slash is when none comes before it and it is the end
/// or a slash.
pub proof fn lemma_first_slash(s: Seq<char>, n: int)
    requires
        0 <= n <= s.len(),
        forall|m: int| 0 <= m < n ==> #[trigger] s[m] != '/',
        n < s.len() ==> s[n] == '/',
    ensures
        first_slash(s) == n,
    decreases s.len(),
{
    if s.len() > 0 && n > 0 {
        assert forall|m: int| 0 <= m < n - 1 implies #[trigger] s.drop_first()[m] != '/' by {
            assert(s.drop_first()[m] == s[m + 1]);
        }
        if n - 1 < s.len() - 1 {
            assert(s.drop_first()[n - 1] == s[n]);
        }
        lemma_first_slash(s.drop_first(), n - 1);
        assert(s[0] != '/');
    }
}

/// The first slash lies within the sequence.
pub proof fn lemma_first_slash_bound(s: Seq<char>)
    ensures
        0 <= first_slash(s) <= s.len(),
    decreases s.len(),
{
    if s.len() > 0 {
        lemma_first_slash_bound(s.drop_first());
    }
}

/// Looking up the path components in `tail`, the rest of the trimmed path `path`,
/// from the directory whose chain starts at `current`: empty components are
/// skipped; a component is looked up, ignoring case, among the directory's listed
/// slots; the first that matches is the answer when `path` ends with the
/// component, and otherwise, when it is a directory, becomes the current one.
/// The answer is the directory and the place of the slot in its listing; `None`
/// when a component is missing or the components run out.
pub open spec fn walk<D: BlockDevice>(dev: &D, fs: Fat32, path: Seq<char>, tail: Seq<char>, current: u32) -> Option<
    (u32, int),
>
    decreases tail.len(),
{
    let n = first_slash(tail);
    let comp = tail.take(n);
    if 0 <= n < tail.len() && comp.len() == 0 {
        walk(dev, fs, path, tail.skip(n + 1), current)
    } else if comp.len() == 0 {
        None
    } else {
        let raws = dir_listing(dev, fs, current);
        let k = first_named(raws, uppercase_of(comp));
        if !(0 <= k < raws.len()) {
            None
        } else if comp.len() <= path.len() && path.subrange(path.len() - comp.len(), path.len() as int) == comp {
            Some((current, k))
        } else if 0 <= n < tail.len() {
            walk(
                dev,
                fs,
                path,
                tail.skip(n + 1),
                if raws[k][11] & ATTR_DIRECTORY != 0 {
                    slot_cluster(raws[k])
                } else {
                    current
                },
            )
        } else {
            None
        }
    }
}

/// What `find_entry` looks up for a path that is more than slashes: the path
/// without its leading slashes, walked from the root.
pub open spec fn path_lookup<D: BlockDevice>(dev: &D, fs: Fat32, path: Seq<char>) -> Option<(u32, int)> {
    let rest = path.skip(leading(path, '/'));
    walk(dev, fs, rest, rest, fs.root_cluster)
}

/// Where the data of cluster `c` starts on the disk.
pub open spec fn cluster_start(fs: Fat32, c: u32) -> int {
    (fs.data_start_sector + (c - 2) * fs.sectors_per_cluster) * fs.bytes_per_sector
}

/// `data` cut or padded with zeros to `n` bytes.
pub open spec fn padded(data: Seq<u8>, n: int) -> Seq<u8> {
    Seq::new(n as nat, |i: int| if i < data.len() { data[i] } else { 0u8 })
}

/// Where the FAT entry of cluster `c` is on the disk.
pub open spec fn fat_entry_start(fs: Fat32, c: u32) -> int {
    fs.fat_start_sector * fs.bytes_per_sector + c * 4
}

/// The device took `v` (its low 28 bits) as the FAT entry of cluster `c`.
#[verifier::opaque]
pub open spec fn fat_took<D: BlockDevice>(dev: &D, fs: Fat32, c: u32, v: u32) -> bool {
    exists|b: Seq<u8>|
        b.len() == 4 && #[trigger] took_bytes(dev, fat_entry_start(fs, c), b) && le32_at(b, 0) & 0x0FFF_FFFFu32 == v
            & 0x0FFF_FFFFu32
}

/// The device took slot `slot` of cluster `c` as the 32 bytes `b`.
pub open spec fn slot_took<D: BlockDevice>(dev: &D, fs: Fat32, c: u32, slot: int, b: Seq<u8>) -> bool {
    took_bytes(dev, cluster_start(fs, c) + slot * 32, b)
}

/// The device took slot `slot` of cluster `c` as the bytes of entry `e`.
pub open spec fn entry_took<D: BlockDevice>(dev: &D, fs: Fat32, c: u32, slot: int, e: Fat32DirEntry) -> bool {
    exists|b: Seq<u8>| b.len() == 32 && entry_matches(e, b, 0) && #[trigger] slot_took(dev, fs, c, slot, b)
}

/// The first cluster of what a path names, as `find_entry` finds it: the root for
/// a path of slashes only, else the cluster the found slot names.
pub open spec fn lookup_cluster<D: BlockDevice>(dev: &D, fs: Fat32, path: Seq<char>) -> Option<u32> {
    if leading(path, '/') == path.len() {
        Some(fs.root_cluster)
    } else {
        match path_lookup(dev, fs, path) {
            Some((c, k)) => Some(slot_cluster(dir_listing(dev, fs, c)[k])),
            None => None,
        }
    }
}

/// The first cluster of the directory a path names: the root for a path of
/// slashes only, else the cluster the found slot names when it is a directory.
pub open spec fn dir_target<D: BlockDevice>(dev: &D, fs: Fat32, path: Seq<char>) -> Option<u32> {
    if leading(path, '/') == path.len() {
        Some(fs.root_cluster)
    } else {
        match path_lookup(dev, fs, path) {
            Some((c, k)) => if dir_listing(dev, fs, c)[k][11] & ATTR_DIRECTORY != 0 {
                Some(slot_cluster(dir_listing(dev, fs, c)[k]))
            } else {
                None
            },
            None => None,
        }
    }
}

/// Where the last slash of `s` is, or the length when there is none.
pub open spec fn last_slash(s: Seq<char>) -> int
    decreases s.len(),
{
    if s.len() == 0 {
        0
    } else if s.last() == '/' {
        s.len() - 1
    } else if last_slash(s.drop_last()) < s.len() - 1 {
        last_slash(s.drop_last())
    } else {
        s.len() as int
    }
}

/// The last slash lies within the sequence.
pub proof fn lemma_last_slash_bound(s: Seq<char>)
    ensures
        0 <= last_slash(s) <= s.len(),
    decreases s.len(),
{
    if s.len() > 0 {
        lemma_last_slash_bound(s.drop_last());
    }
}

/// The `i`-th cluster-size piece of `data` (the last may be shorter).
pub open spec fn chunk(data: Seq<u8>, size: int, i: int) -> Seq<u8> {
    let start = if i * size <= data.len() { i * size } else { data.len() as int };
    let end = if data.len() - start < size { data.len() as int } else { start + size };
    data.subrange(start, end)
}

/// How many clusters of `size` bytes `len` bytes take.
pub open spec fn clusters_needed(len: int, size: int) -> int {
    if len % size != 0 {
        len / size + 1
    } else {
        len / size
    }
}

/// `data` went to the clusters `cs`: enough of them, each with its FAT entry
/// linking to the next (the last marked end of chain) and holding its piece of
/// `data`, zero padded.
pub open spec fn stored_in<D: BlockDevice>(dev: &D, fs: Fat32, cs: Seq<u32>, data: Seq<u8>) -> bool {
    &&& cs.len() == clusters_needed(data.len() as int, fs.spec_cluster_size())
    &&& forall|i: int|
        0 <= i < cs.len() ==> {
            &&& 2 <= #[trigger] cs[i] < fs.total_clusters + 2
            &&& fat_took(dev, fs, cs[i], if i + 1 < cs.len() { cs[i + 1] } else { FAT_END_MAX })
            &&& took_bytes(
                dev,
                cluster_start(fs, cs[i]),
                padded(chunk(data, fs.spec_cluster_size(), i), fs.spec_cluster_size()),
            )
        }
}

/// `data` is stored from cluster `first`: nothing (cluster 0) for no data, else
/// a chain of clusters starting there.
pub open spec fn stored_at<D: BlockDevice>(dev: &D, fs: Fat32, first: u32, data: Seq<u8>) -> bool {
    if data.len() == 0 {
        first == 0
    } else {
        exists|cs: Seq<u32>| cs.len() > 0 && cs[0] == first && #[trigger] stored_in(dev, fs, cs, data)
    }
}

/// Whether slot `i` of cluster bytes `b` is free: its name starts with 0 or 0xE5.
pub open spec fn slot_free(b: Seq<u8>, i: int) -> bool {
    b[i * 32] == 0 || b[i * 32] == 0xE5
}

/// The 32 bytes of slot `i` of cluster bytes `b`.
pub open spec fn slot_raw(b: Seq<u8>, i: int) -> Seq<u8> {
    b.subrange(i * 32, i * 32 + 32)
}

/// No slot of the first `n` clusters of `chain` is free.
pub open spec fn none_free<D: BlockDevice>(dev: &D, fs: Fat32, chain: Seq<u32>, n: int) -> bool {
    forall|j: int, k: int|
        0 <= j < n && 0 <= k < fs.spec_cluster_size() / 32 ==> !#[trigger] slot_free(cluster_bytes(dev, fs, chain[j]), k)
}

/// Slot `slot` of cluster `c` is where a new entry of the directory at `dir` goes:
/// the first free slot along its chain; or, with none free, slot 0 of cluster `c`
/// newly taken for it: marked end of chain, linked from the chain's last
/// cluster and zeroed.
pub open spec fn free_place<D: BlockDevice>(dev: &D, fs: Fat32, dir: u32, c: u32, slot: int) -> bool {
    let chain = chain_of(dev, fs, dir);
    let per = fs.spec_cluster_size() / 32;
    ||| exists|ci: int|
        0 <= ci < chain.len() && #[trigger] chain[ci] == c && 0 <= slot < per && slot_free(cluster_bytes(dev, fs, c), slot)
            && none_free(dev, fs, chain, ci) && forall|k: int|
            0 <= k < slot ==> !#[trigger] slot_free(cluster_bytes(dev, fs, c), k)
    ||| {
        &&& slot == 0
        &&& chain.len() > 0
        &&& none_free(dev, fs, chain, chain.len() as int)
        &&& 2 <= c < fs.total_clusters + 2
        &&& fat_took(dev, fs, c, FAT_END_MAX)
        &&& fat_took(dev, fs, chain.last(), c)
        &&& took_bytes(dev, cluster_start(fs, c), padded(Seq::empty(), fs.spec_cluster_size()))
    }
}

/// Slot `k` of the `ci`-th cluster along the chain of the directory at `dir` is
/// the first whose shown name, in upper case, is `u`.
pub open spec fn named_place<D: BlockDevice>(dev: &D, fs: Fat32, dir: u32, u: Seq<char>, ci: int, k: int) -> bool {
    let chain = chain_of(dev, fs, dir);
    let per = fs.spec_cluster_size() / 32;
    &&& 0 <= ci < chain.len()
    &&& 0 <= k < per
    &&& uppercase_of(shown_name(slot_raw(cluster_bytes(dev, fs, chain[ci]), k))) == u
    &&& forall|j: int, m: int|
        0 <= j < ci && 0 <= m < per ==> uppercase_of(shown_name(#[trigger] slot_raw(cluster_bytes(dev, fs, chain[j]), m))) != u
    &&& forall|m: int|
        0 <= m < k ==> uppercase_of(shown_name(#[trigger] slot_raw(cluster_bytes(dev, fs, chain[ci]), m))) != u
}

/// No slot along the chain of the directory at `dir` shows the name `u` in upper case.
pub open spec fn none_named<D: BlockDevice>(dev: &D, fs: Fat32, dir: u32, u: Seq<char>) -> bool {
    forall|j: int, m: int|
        0 <= j < chain_of(dev, fs, dir).len() && 0 <= m < fs.spec_cluster_size() / 32 ==> uppercase_of(
            shown_name(#[trigger] slot_raw(cluster_bytes(dev, fs, chain_of(dev, fs, dir)[j]), m)),
        ) != u
}

/// Slot `k` of cluster `c` was rewritten: with `delete`, its first byte taken as
/// 0xE5; otherwise taken as the entry it held with first cluster `nc` and size `ns`.
pub open spec fn slot_rewritten<D: BlockDevice>(
    dev: &D,
    fs: Fat32,
    c: u32,
    k: int,
    nc: u32,
    ns: u32,
    delete: bool,
) -> bool {
    if delete {
        took_bytes(dev, cluster_start(fs, c) + k * 32, seq![0xE5u8])
    } else {
        exists|e: Fat32DirEntry|
            #[trigger] entry_took(dev, fs, c, k, e) && first_cluster_of(e) == nc && e.file_size == ns && e.name@
                == slot_raw(cluster_bytes(dev, fs, c), k).subrange(0, 11) && e.attr == slot_raw(cluster_bytes(dev, fs, c), k)[11]
    }
}

/// A cluster number split into its high and low halves joins back to itself.
pub proof fn lemma_cluster_halves(c: u32)
    ensures
        (((c >> 16u32) as u16) as u32) << 16u32 | ((c as u16) as u32) == c,
{
    assert((((c >> 16u32) as u16) as u32) << 16u32 | ((c as u16) as u32) == c) by (bit_vector);
}

/// File `name` was created in the directory at `dir` holding `data`: the name
/// has an 8.3 form and no entry there shows it (ignoring case); the data is
/// stored from some cluster, and an archive entry with that name, that first
/// cluster and the data's size (as a 32-bit number) went to the directory's
/// free place.
pub open spec fn created<D: BlockDevice>(dev: &D, fs: Fat32, dir: Seq<char>, name: Seq<char>, data: Seq<u8>) -> bool {
    &&& short_name_valid(uppercase_of(name))
    &&& dir_target(dev, fs, dir) matches Some(p)
    &&& first_named(dir_listing(dev, fs, p), uppercase_of(name)) == dir_listing(dev, fs, p).len()
    &&& exists|c: u32, slot: int, e: Fat32DirEntry|
        #![trigger entry_took(dev, fs, c, slot, e)]
        free_place(dev, fs, p, c, slot) && entry_took(dev, fs, c, slot, e) && e.name@ == short_name_bytes(
            uppercase_of(name),
        ) && e.attr == ATTR_ARCHIVE && e.file_size == data.len() as u32 && stored_at(dev, fs, first_cluster_of(e), data)
}

/// The parent directory part of a path: what comes before its last slash, or
/// "/" when it has none.
pub open spec fn parent_part(p: Seq<char>) -> Seq<char> {
    if last_slash(p) < p.len() {
        p.take(last_slash(p))
    } else {
        seq!['/']
    }
}

/// The file name part of a path: what follows its last slash.
pub open spec fn file_part(p: Seq<char>) -> Seq<char> {
    if last_slash(p) < p.len() {
        p.skip(last_slash(p) + 1)
    } else {
        p
    }
}

/// The file at `path` was rewritten: `find_entry` finds it, not a directory;
/// the clusters of its old chain were marked free; `data` is stored from some
/// cluster (none for no data); and, in the directory its parent part names, the
/// first slot showing its file name (ignoring case) was marked deleted with
/// `delete`, or else given that first cluster and the data's size.
pub open spec fn file_changed<D: BlockDevice>(dev: &D, fs: Fat32, path: Seq<char>, data: Seq<u8>, delete: bool) -> bool {
    &&& leading(path, '/') < path.len()
    &&& path_lookup(dev, fs, path) matches Some((c, k))
    &&& 0 <= k < dir_listing(dev, fs, c).len()
    &&& dir_listing(dev, fs, c)[k][11] & ATTR_DIRECTORY == 0
    &&& forall|i: int|
        0 <= i < chain_of(dev, fs, slot_cluster(dir_listing(dev, fs, c)[k])).len() ==> fat_took(
            dev,
            fs,
            #[trigger] chain_of(dev, fs, slot_cluster(dir_listing(dev, fs, c)[k]))[i],
            FAT_FREE,
        )
    &&& lookup_cluster(dev, fs, parent_part(path)) matches Some(pc)
    &&& exists|first: u32, ci: int, m: int|
        #![trigger slot_rewritten(dev, fs, chain_of(dev, fs, pc)[ci], m, first, data.len() as u32, delete)]
        stored_at(dev, fs, first, data) && named_place(dev, fs, pc, uppercase_of(file_part(path)), ci, m)
            && slot_rewritten(
            dev,
            fs,
            chain_of(dev, fs, pc)[ci],
            m,
            first,
            data.len() as u32,
            delete,
        )
}

/// The parts of `file_changed` make it up.
proof fn lemma_file_changed<D: BlockDevice>(
    dev: &D,
    fs: Fat32,
    path: Seq<char>,
    data: Seq<u8>,
    delete: bool,
    c: u32,
    k: int,
    pc: u32,
    first: u32,
    ci: int,
    m: int,
)
    requires
        leading(path, '/') < path.len(),
        path_lookup(dev, fs, path) == Some((c, k)),
        0 <= k < dir_listing(dev, fs, c).len(),
        dir_listing(dev, fs, c)[k][11] & ATTR_DIRECTORY == 0,
        forall|i: int|
            0 <= i < chain_of(dev, fs, slot_cluster(dir_listing(dev, fs, c)[k])).len() ==> fat_took(
                dev,
                fs,
                #[trigger] chain_of(dev, fs, slot_cluster(dir_listing(dev, fs, c)[k]))[i],
                FAT_FREE,
            ),
        lookup_cluster(dev, fs, parent_part(path)) == Some(pc),
        stored_at(dev, fs, first, data),
        named_place(dev, fs, pc, uppercase_of(file_part(path)), ci, m),
        slot_rewritten(dev, fs, chain_of(dev, fs, pc)[ci], m, first, data.len() as u32, delete),
    ensures
        file_changed(dev, fs, path, data, delete),
{
    assert(exists|first: u32, ci: int, m: int|
        #![trigger slot_rewritten(dev, fs, chain_of(dev, fs, pc)[ci], m, first, data.len() as u32, delete)]
        stored_at(dev, fs, first, data) && named_place(dev, fs, pc, uppercase_of(file_part(path)), ci, m)
            && slot_rewritten(dev, fs, chain_of(dev, fs, pc)[ci], m, first, data.len() as u32, delete));
    assert(lookup_cluster(dev, fs, parent_part(path)) matches Some(p) && p == pc);
}

/// `data` was written to the file at `path`: an existing file was rewritten, or,
/// when `find_entry` finds nothing there, the file was created in the directory
/// the path's parent part names.
#[verifier::opaque]
pub open spec fn file_written<D: BlockDevice>(dev: &D, fs: Fat32, path: Seq<char>, data: Seq<u8>) -> bool {
    ||| file_changed(dev, fs, path, data, false)
    ||| leading(path, '/') < path.len() && path_lookup(dev, fs, path) is None && created(
        dev,
        fs,
        parent_part(path),
        file_part(path),
        data,
    )
}

/// The contents of the file a slot describes: its size (bytes 28..32) in bytes
/// along the chain from its first cluster (fewer when the chain is shorter).
pub open spec fn slot_content<D: BlockDevice>(dev: &D, fs: Fat32, raw: Seq<u8>) -> Seq<u8> {
    first_bytes(chain_bytes(dev, fs, chain_of(dev, fs, slot_cluster(raw))), le32_at(raw, 28) as int)
}

/// The bytes of the clusters `cs`, one after another.
pub open spec fn chain_bytes<D: BlockDevice>(dev: &D, fs: Fat32, cs: Seq<u32>) -> Seq<u8>
    decreases cs.len(),
{
    if cs.len() == 0 {
        Seq::empty()
    } else {
        chain_bytes(dev, fs, cs.drop_last()) + cluster_bytes(dev, fs, cs.last())
    }
}

/// The first `n` bytes of `b`, or all of `b` when it is shorter.
pub open spec fn first_bytes(b: Seq<u8>, n: int) -> Seq<u8> {
    if n < b.len() {
        b.take(n)
    } else {
        b
    }
}

/// The bytes of the first `k` clusters begin the bytes of the first `n`, and
/// each cluster adds a cluster's worth.
pub proof fn lemma_chain_bytes_prefix<D: BlockDevice>(dev: &D, fs: Fat32, cs: Seq<u32>, k: int, n: int)
    requires
        0 <= k <= n <= cs.len(),
        fs.spec_cluster_size() >= 0,
    ensures
        chain_bytes(dev, fs, cs.take(k)).len() == k * fs.spec_cluster_size(),
        chain_bytes(dev, fs, cs.take(n)).take(k * fs.spec_cluster_size()) == chain_bytes(dev, fs, cs.take(k)),
    decreases n - k,
{
    let size = fs.spec_cluster_size();
    if k == n {
        lemma_chain_bytes_len(dev, fs, cs.take(k));
        assert(chain_bytes(dev, fs, cs.take(n)).take(k * size) =~= chain_bytes(dev, fs, cs.take(k)));
    } else {
        lemma_chain_bytes_prefix(dev, fs, cs, k, n - 1);
        lemma_chain_bytes_len(dev, fs, cs.take(n - 1));
        assert(cs.take(n).drop_last() =~= cs.take(n - 1));
        let whole = chain_bytes(dev, fs, cs.take(n));
        let part = chain_bytes(dev, fs, cs.take(n - 1));
        assert(whole == part + cluster_bytes(dev, fs, cs.take(n).last()));
        assert(k * size <= (n - 1) * size) by (nonlinear_arith)
            requires
                k <= n - 1,
                size >= 0,
        ;
        assert(whole.take(k * size) =~= part.take(k * size));
    }
}

/// `k` clusters make `k` clusters' worth of bytes.
pub proof fn lemma_chain_bytes_len<D: BlockDevice>(dev: &D, fs: Fat32, cs: Seq<u32>)
    requires
        fs.spec_cluster_size() >= 0,
    ensures
        chain_bytes(dev, fs, cs).len() == cs.len() * fs.spec_cluster_size(),
    decreases cs.len(),
{
    if cs.len() > 0 {
        lemma_chain_bytes_len(dev, fs, cs.drop_last());
        assert(cs.len() * fs.spec_cluster_size() == (cs.len() - 1) * fs.spec_cluster_size() + fs.spec_cluster_size())
            by (nonlinear_arith);
    }
}

impl Fat32 {
    /// Sectors and clusters have sizes and a cluster fits in memory: bytes per
    /// sector at most the 512 this driver buffers.
    pub open spec fn wf(&self) -> bool {
        &&& 0 < self.bytes_per_sector <= 512
        &&& 0 < self.sectors_per_cluster <= 255
        &&& self.total_clusters + 2 <= u32::MAX
    }

    /// Bytes per cluster.
    pub open spec fn spec_cluster_size(&self) -> int {
        self.sectors_per_cluster * self.bytes_per_sector
    }

    /// Reads the boot sector from the device and takes the volume's layout from it
    /// (see `from_boot_sector`); a failed read is the device's error.
    pub fn mount<D: BlockDevice>(dev: &D) -> (r: Result<Fat32, Fat32Error>)
        ensures
            r is Ok ==> r->Ok_0.sectors_per_cluster > 0 && r->Ok_0.sectors_per_cluster <= 255,
            r is Err ==> r->Err_0 == Fat32Error::InvalidFilesystem || r->Err_0 is BlockError,
            dev.spec_sector_size() == 512 ==> (r matches Err(Fat32Error::BlockError(_)))
                || booted(Seq::new(512, |i: int| disk_byte(dev, i)), r),
    {
        let mut buf: Vec<u8> = Vec::new();
        let mut i: usize = 0;
        while i < 512
            invariant
                i <= 512,
                buf@.len() == i,
            decreases 512 - i,
        {
            buf.push(0);
            i = i + 1;
        }
        match read_bytes(dev, 0, buf.as_mut_slice()) {
            Ok(()) => {},
            Err(e) => {
                return Err(Fat32Error::BlockError(e));
            },
        }
        proof {
            if dev.spec_sector_size() == 512 {
                assert(buf@ =~= Seq::new(512, |i: int| disk_byte(dev, i)));
            }
        }
        Self::from_boot_sector(buf.as_slice())
    }

    /// The volume's layout from its boot sector `b`: a boot signature other than
    /// 0x29, a 16-bit FAT size other than 0, a FAT region past the 32-bit sector
    /// range, fewer sectors than the data region starts at, or no sectors per
    /// cluster make the volume invalid.
    pub fn from_boot_sector(b: &[u8]) -> (r: Result<Fat32, Fat32Error>)
        requires
            b@.len() == 512,
        ensures
            booted(b@, r),
            r is Ok ==> r->Ok_0.sectors_per_cluster > 0 && r->Ok_0.sectors_per_cluster <= 255,
    {
        let boot = Fat32BootSector::parse(b);
        if boot.boot_sig != 0x29 {
            return Err(Fat32Error::InvalidFilesystem);
        }
        if boot.fat_size_16 != 0 {
            return Err(Fat32Error::InvalidFilesystem);
        }
        let bytes_per_sector = boot.bytes_per_sector as u32;
        let sectors_per_cluster = boot.sectors_per_cluster as u32;
        let reserved_sectors = boot.reserved_sectors as u32;
        let num_fats = boot.num_fats as u32;
        let fat_size = boot.fat_size_32;
        let root_cluster = boot.root_cluster;
        let fat_start_sector = reserved_sectors;
        let fats = match num_fats.checked_mul(fat_size) {
            Some(f) => f,
            None => {
                return Err(Fat32Error::InvalidFilesystem);
            },
        };
        let data_start_sector = match reserved_sectors.checked_add(fats) {
            Some(d) => d,
            None => {
                return Err(Fat32Error::InvalidFilesystem);
            },
        };
        let total_sectors = boot.total_sectors_32;
        if total_sectors < data_start_sector || sectors_per_cluster == 0 {
            return Err(Fat32Error::InvalidFilesystem);
        }
        let data_sectors = total_sectors - data_start_sector;
        let total_clusters = data_sectors / sectors_per_cluster;
        let mut raw: Vec<u8> = Vec::new();
        let mut k: usize = 0;
        while k < 11
            invariant
                k <= 11,
                raw@.len() == k,
                forall|j: int| 0 <= j < k ==> raw@[j] == boot.volume_label@[j],
            decreases 11 - k,
        {
            raw.push(boot.volume_label[k]);
            k = k + 1;
        }
        assert(raw@ =~= boot.volume_label@);
        let decoded = match string_from_utf8(raw) {
            Some(s) => s,
            None => "NO NAME".to_string(),
        };
        let volume_label = trimmed(&decoded);
        Ok(Fat32 {
            bytes_per_sector,
            sectors_per_cluster,
            fat_start_sector,
            data_start_sector,
            root_cluster,
            fat_size,
            total_clusters,
            volume_label,
        })
    }

    /// Bytes per cluster.
    pub fn cluster_size(&self) -> (n: usize)
        requires
            self.wf(),
        ensures
            n == self.spec_cluster_size(),
    {
        proof {
            assert(self.sectors_per_cluster * self.bytes_per_sector <= 255 * 512) by (nonlinear_arith)
                requires
                    self.sectors_per_cluster <= 255,
                    self.bytes_per_sector <= 512,
            ;
        }
        (self.sectors_per_cluster * self.bytes_per_sector) as usize
    }

    /// The first sector of data cluster `cluster` (numbered from 2).
    pub fn cluster_to_sector(&self, cluster: u32) -> (s: u64)
        requires
            cluster >= 2,
            self.sectors_per_cluster <= 255,
        ensures
            s == self.data_start_sector + (cluster - 2) * self.sectors_per_cluster,
    {
        proof {
            assert((cluster - 2) * self.sectors_per_cluster <= 0xffff_ffff * 255) by (nonlinear_arith)
                requires
                    cluster <= 0xffff_ffff,
                    self.sectors_per_cluster <= 255,
                    cluster >= 2,
            ;
        }
        self.data_start_sector as u64 + (cluster - 2) as u64 * self.sectors_per_cluster as u64
    }

    /// Byte offset of sector `sector`.
    fn sector_offset(&self, sector: u64) -> (r: Option<u64>)
        ensures
            r == (if sector * self.bytes_per_sector <= u64::MAX {
                Some((sector * self.bytes_per_sector) as u64)
            } else {
                None::<u64>
            }),
    {
        sector.checked_mul(self.bytes_per_sector as u64)
    }

    /// Reads the sector holding the FAT entry of `cluster`, and where in it the entry is.
    fn fat_sector<D: BlockDevice>(&self, dev: &D, cluster: u32) -> (r: Result<(Vec<u8>, usize, u64), Fat32Error>)
        requires
            self.wf(),
        ensures
            r is Ok ==> r->Ok_0.0@.len() == 512 && r->Ok_0.1 + 4 <= 512 && r->Ok_0.1 == (cluster as int * 4)
                % self.bytes_per_sector as int,
            r is Ok ==> r->Ok_0.2 + r->Ok_0.1 == self.fat_start_sector * self.bytes_per_sector + cluster * 4,
            r is Ok && dev.spec_sector_size() == 512 ==> r->Ok_0.0@ == disk_bytes(dev, r->Ok_0.2 as int, 512),
            r is Err ==> r->Err_0 is BlockError,
    {
        let fat_offset = cluster as u64 * 4;
        let fat_sector = self.fat_start_sector as u64 + fat_offset / self.bytes_per_sector as u64;
        let entry_offset = (fat_offset % self.bytes_per_sector as u64) as usize;
        let byte_offset = match self.sector_offset(fat_sector) {
            Some(o) => o,
            None => {
                return Err(Fat32Error::BlockError(BlockError::InvalidSector));
            },
        };
        if entry_offset + 4 > 512 {
            return Err(Fat32Error::BlockError(BlockError::InvalidSector));
        }
        let mut buf: Vec<u8> = Vec::new();
        let mut i: usize = 0;
        while i < 512
            invariant
                i <= 512,
                buf@.len() == i,
            decreases 512 - i,
        {
            buf.push(0);
            i = i + 1;
        }
        proof {
            let bps = self.bytes_per_sector as int;
            let c4 = cluster as int * 4;
            assert(c4 == (c4 / bps) * bps + c4 % bps) by (nonlinear_arith)
                requires
                    bps > 0,
            ;
            assert((self.fat_start_sector + c4 / bps) * bps == self.fat_start_sector * bps + (c4 / bps) * bps)
                by (nonlinear_arith);
        }
        match read_bytes(dev, byte_offset, buf.as_mut_slice()) {
            Ok(()) => {
                assert(dev.spec_sector_size() == 512 ==> buf@ =~= disk_bytes(dev, byte_offset as int, 512));
                Ok((buf, entry_offset, byte_offset))
            },
            Err(e) => Err(Fat32Error::BlockError(e)),
        }
    }

    /// The FAT entry of `cluster`, its top four bits cleared.
    fn read_fat_entry<D: BlockDevice>(&self, dev: &D, cluster: u32) -> (r: Result<u32, Fat32Error>)
        requires
            self.wf(),
        ensures
            r is Ok ==> r->Ok_0 <= 0x0FFF_FFFF,
            r is Ok && dev.spec_sector_size() == 512 ==> r->Ok_0 == fat_entry(dev, *self, cluster),
            r is Err ==> r->Err_0 is BlockError,
    {
        let (buf, at, off) = match self.fat_sector(dev, cluster) {
            Ok(t) => t,
            Err(e) => {
                return Err(e);
            },
        };
        let entry = read_le32(buf.as_slice(), at);
        assert(entry & 0x0FFF_FFFF <= 0x0FFF_FFFF) by (bit_vector);
        proof {
            if dev.spec_sector_size() == 512 {
                let e = self.fat_start_sector * self.bytes_per_sector + cluster * 4;
                assert(off + at == e);
                let w = disk_bytes(dev, e, 4);
                assert(buf@[at as int] == w[0] && buf@[at + 1] == w[1] && buf@[at + 2] == w[2] && buf@[at + 3] == w[3]);
            }
        }
        Ok(entry & 0x0FFF_FFFF)
    }

    /// Reads data cluster `cluster`.
    fn read_cluster<D: BlockDevice>(&self, dev: &D, cluster: u32) -> (r: Result<Vec<u8>, Fat32Error>)
        requires
            self.wf(),
            cluster >= 2,
        ensures
            r is Ok ==> r->Ok_0@.len() == self.spec_cluster_size(),
            r is Ok && dev.spec_sector_size() == 512 ==> r->Ok_0@ == cluster_bytes(dev, *self, cluster),
            r is Err ==> r->Err_0 is BlockError,
    {
        let sector = self.cluster_to_sector(cluster);
        let size = self.cluster_size();
        let byte_offset = match self.sector_offset(sector) {
            Some(o) => o,
            None => {
                return Err(Fat32Error::BlockError(BlockError::InvalidSector));
            },
        };
        let mut buf: Vec<u8> = Vec::new();
        let mut i: usize = 0;
        while i < size
            invariant
                i <= size,
                buf@.len() == i,
            decreases size - i,
        {
            buf.push(0);
            i = i + 1;
        }
        match read_bytes(dev, byte_offset, buf.as_mut_slice()) {
            Ok(()) => {
                assert(dev.spec_sector_size() == 512 ==> buf@ =~= cluster_bytes(dev, *self, cluster));
                Ok(buf)
            },
            Err(e) => Err(Fat32Error::BlockError(e)),
        }
    }

    /// The clusters of the chain from `start`, following the FAT while the
    /// cluster is a data cluster (2 up to the end markers). A chain longer than
    /// the volume's clusters can be is cut there.
    fn get_cluster_chain<D: BlockDevice>(&self, dev: &D, start: u32) -> (r: Result<Vec<u32>, Fat32Error>)
        requires
            self.wf(),
        ensures
            r is Ok ==> forall|i: int| 0 <= i < r->Ok_0@.len() ==> 2 <= #[trigger] r->Ok_0@[i] < FAT_END_MIN,
            r is Ok && 2 <= start < FAT_END_MIN ==> r->Ok_0@.len() >= 1 && r->Ok_0@[0] == start,
            r is Ok && !(2 <= start < FAT_END_MIN) ==> r->Ok_0@.len() == 0,
            r is Ok && dev.spec_sector_size() == 512 ==> r->Ok_0@ == chain_of(dev, *self, start),
            r is Err ==> r->Err_0 is BlockError,
            !(2 <= start < FAT_END_MIN) ==> r is Ok,
    {
        let mut chain: Vec<u32> = Vec::new();
        let mut current = start;
        let limit: u64 = self.total_clusters as u64 + 2;
        let mut steps: u64 = 0;
        while current >= 2 && current < FAT_END_MIN && steps <= limit
            invariant
                self.wf(),
                forall|i: int| 0 <= i < chain@.len() ==> 2 <= #[trigger] chain@[i] < FAT_END_MIN,
                steps == chain@.len(),
                limit == self.total_clusters as u64 + 2,
                steps <= limit + 1,
                !(2 <= start < FAT_END_MIN) ==> chain@.len() == 0,
                2 <= start < FAT_END_MIN ==> chain@.len() >= 1 ==> chain@[0] == start,
                chain@.len() == 0 ==> current == start,
                dev.spec_sector_size() == 512 ==> chain@ + chain_from(dev, *self, current, (limit + 1 - steps) as nat)
                    == chain_of(dev, *self, start),
            decreases limit + 1 - steps,
        {
            let ghost before = chain@;
            let ghost c0 = current;
            chain.push(current);
            current = match self.read_fat_entry(dev, current) {
                Ok(c) => c,
                Err(e) => {
                    return Err(e);
                },
            };
            steps = steps + 1;
            proof {
                if dev.spec_sector_size() == 512 {
                    let rest = chain_from(dev, *self, current, (limit + 1 - steps) as nat);
                    assert(chain_from(dev, *self, c0, (limit + 1 - (steps - 1)) as nat) == seq![c0] + rest);
                    assert(chain@ + rest =~= before + (seq![c0] + rest));
                }
            }
        }
        proof {
            if dev.spec_sector_size() == 512 {
                assert(chain_from(dev, *self, current, (limit + 1 - steps) as nat) =~= Seq::<u32>::empty());
                assert(chain@ + Seq::<u32>::empty() =~= chain@);
            }
        }
        Ok(chain)
    }

    /// The name an 8.3 entry shows (see `short_name_chars`), in lower case.
    pub fn parse_short_name(&self, raw: &[u8; 11]) -> (s: String)
        ensures
            s@ == lowercase_of(short_name_chars(raw@)),
    {
        let mut name: Vec<char> = Vec::new();
        let mut i: usize = 0;
        while i < 8 && raw[i] != 0x20
            invariant
                i <= 8,
                name@ == raw@.subrange(0, i as int).map_values(|c: u8| c as char),
                forall|k: int| 0 <= k < i ==> raw@[k] != 0x20,
            decreases 8 - i,
        {
            name.push(raw[i] as char);
            i = i + 1;
            assert(name@ =~= raw@.subrange(0, i as int).map_values(|c: u8| c as char));
        }
        proof {
            lemma_first_space(raw@.subrange(0, 8), i as int);
            assert(raw@.subrange(0, 8).take(i as int) =~= raw@.subrange(0, i as int));
        }
        let ghost base = name@;
        if raw[8] != 0x20 {
            name.push('.');
            let mut j: usize = 8;
            while j < 11 && raw[j] != 0x20
                invariant
                    8 <= j <= 11,
                    name@ == base.push('.') + raw@.subrange(8, j as int).map_values(|c: u8| c as char),
                    forall|k: int| 8 <= k < j ==> raw@[k] != 0x20,
                decreases 11 - j,
            {
                name.push(raw[j] as char);
                j = j + 1;
                assert(name@ =~= base.push('.') + raw@.subrange(8, j as int).map_values(|c: u8| c as char));
            }
            proof {
                lemma_first_space(raw@.subrange(8, 11), j - 8);
                assert(raw@.subrange(8, 11).take(j - 8) =~= raw@.subrange(8, j as int));
            }
        }
        let mut s = String::new();
        let mut k: usize = 0;
        while k < name.len()
            invariant
                k <= name@.len(),
                s@ == name@.subrange(0, k as int),
            decreases name@.len() - k,
        {
            push_char(&mut s, name[k]);
            k = k + 1;
            assert(s@ =~= name@.subrange(0, k as int));
        }
        assert(s@ =~= short_name_chars(raw@));
        to_lowercase(s.as_str())
    }

    /// The entries of the directory whose chain starts at `dir_cluster`, each with
    /// its name: every 32-byte slot of every cluster, up to the first slot whose
    /// name starts with 0, skipping deleted slots (0xE5), long-name slots and the
    /// volume label.
    pub fn list_directory<D: BlockDevice>(&self, dev: &D, dir_cluster: u32) -> (r: Result<
        Vec<(String, Fat32DirEntry)>,
        Fat32Error,
    >)
        requires
            self.wf(),
        ensures
            r is Ok ==> forall|i: int| 0 <= i < r->Ok_0@.len() ==> {
                let e = (#[trigger] r->Ok_0@[i]).1;
                &&& e.name@[0] != 0 && e.name@[0] != 0xE5
                &&& e.attr != ATTR_LONG_NAME && e.attr & ATTR_VOLUME_ID == 0
                &&& r->Ok_0@[i].0@ == lowercase_of(short_name_chars(e.name@))
            },
            r is Ok && dev.spec_sector_size() == 512 ==> listed_as(
                r->Ok_0@,
                listing(chain_slots(dev, *self, chain_of(dev, *self, dir_cluster))),
            ),
            r is Err ==> r->Err_0 is BlockError,
    {
        let size = self.cluster_size();
        let per_cluster = size / 32;
        let mut result: Vec<(String, Fat32DirEntry)> = Vec::new();
        let clusters = match self.get_cluster_chain(dev, dir_cluster) {
            Ok(c) => c,
            Err(e) => {
                return Err(e);
            },
        };
        let ghost all = chain_slots(dev, *self, clusters@);
        let ghost mut raws: Seq<Seq<u8>> = Seq::empty();
        assert(clusters@.skip(0) =~= clusters@);
        let mut ci: usize = 0;
        while ci < clusters.len()
            invariant
                self.wf(),
                ci <= clusters@.len(),
                size == self.spec_cluster_size(),
                per_cluster == size / 32,
                all == chain_slots(dev, *self, clusters@),
                dev.spec_sector_size() == 512 ==> clusters@ == chain_of(dev, *self, dir_cluster),
                forall|i: int| 0 <= i < clusters@.len() ==> 2 <= #[trigger] clusters@[i] < FAT_END_MIN,
                forall|i: int| 0 <= i < result@.len() ==> {
                    let e = (#[trigger] result@[i]).1;
                    &&& e.name@[0] != 0 && e.name@[0] != 0xE5
                    &&& e.attr != ATTR_LONG_NAME && e.attr & ATTR_VOLUME_ID == 0
                    &&& result@[i].0@ == lowercase_of(short_name_chars(e.name@))
                },
                listed_as(result@, raws),
                dev.spec_sector_size() == 512 ==> listing(all) == raws + listing(
                    chain_slots(dev, *self, clusters@.skip(ci as int)),
                ),
            decreases clusters@.len() - ci,
        {
            let buf = match self.read_cluster(dev, clusters[ci]) {
                Ok(b) => b,
                Err(e) => {
                    return Err(e);
                },
            };
            proof {
                assert(clusters@.skip(ci as int).drop_first() =~= clusters@.skip(ci + 1));
                assert(clusters@.skip(ci as int)[0] == clusters@[ci as int]);
                assert(cluster_slots(buf@).skip(0) =~= cluster_slots(buf@));
            }
            let ghost later = chain_slots(dev, *self, clusters@.skip(ci + 1));
            let mut i: usize = 0;
            while i < per_cluster
                invariant
                    per_cluster == size / 32,
                    buf@.len() == size,
                    i <= per_cluster,
                    all == chain_slots(dev, *self, clusters@),
                    dev.spec_sector_size() == 512 ==> clusters@ == chain_of(dev, *self, dir_cluster),
                    forall|j: int| 0 <= j < result@.len() ==> {
                        let e = (#[trigger] result@[j]).1;
                        &&& e.name@[0] != 0 && e.name@[0] != 0xE5
                        &&& e.attr != ATTR_LONG_NAME && e.attr & ATTR_VOLUME_ID == 0
                        &&& result@[j].0@ == lowercase_of(short_name_chars(e.name@))
                    },
                    listed_as(result@, raws),
                    dev.spec_sector_size() == 512 ==> listing(all) == raws + listing(
                        cluster_slots(buf@).skip(i as int) + later,
                    ),
                decreases per_cluster - i,
            {
                proof {
                    assert(i * 32 + 32 <= size) by (nonlinear_arith)
                        requires
                            i < per_cluster,
                            per_cluster == size / 32,
                    ;
                }
                let entry = Fat32DirEntry::parse(buf.as_slice(), i * 32);
                let ghost slot = buf@.subrange(32 * i, 32 * i + 32);
                proof {
                    let rem = cluster_slots(buf@).skip(i as int) + later;
                    assert(rem[0] == slot);
                    assert(rem.drop_first() =~= cluster_slots(buf@).skip(i + 1) + later);
                    assert(slot.subrange(0, 11) =~= entry.name@);
                    assert(entry.name@[0] == slot[0]);
                    assert(entry.attr == slot[11]);
                    assert forall|k: int| 0 <= k < 32 implies slot[k] == buf@[32 * i + k] by {}
                    assert(entry_matches(entry, slot, 0));
                }
                if entry.name[0] == 0x00 {
                    proof {
                        if dev.spec_sector_size() == 512 {
                            assert(listing(all) =~= raws);
                        }
                    }
                    return Ok(result);
                }
                if entry.name[0] != 0xE5 && entry.attr != ATTR_LONG_NAME && entry.attr & ATTR_VOLUME_ID == 0 {
                    let name = self.parse_short_name(&entry.name);
                    result.push((name, entry));
                    proof {
                        assert(raws.push(slot) + listing(cluster_slots(buf@).skip(i + 1) + later) =~= raws + (seq![slot]
                            + listing(cluster_slots(buf@).skip(i + 1) + later)));
                        raws = raws.push(slot);
                    }
                } else {
                    proof {
                        assert(seq![] + listing(cluster_slots(buf@).skip(i + 1) + later) =~= listing(
                            cluster_slots(buf@).skip(i + 1) + later,
                        ));
                    }
                }
                i = i + 1;
            }
            proof {
                assert(cluster_slots(buf@).skip(i as int) + later =~= later);
            }
            ci = ci + 1;
        }
        proof {
            assert(clusters@.skip(ci as int) =~= Seq::<u32>::empty());
            if dev.spec_sector_size() == 512 {
                assert(listing(all) =~= raws);
            }
        }
        Ok(result)
    }

    /// Finds the entry a path names: leading slashes dropped; nothing left names
    /// the root (a made-up directory entry for the root cluster); otherwise each
    /// non-empty component is looked up, ignoring case, in the current directory,
    /// a directory's cluster becoming the current one, until a component that
    /// ends the path is found (see `walk`).
    pub fn find_entry<D: BlockDevice>(&self, dev: &D, path: &str) -> (r: Result<Fat32DirEntry, Fat32Error>)
        requires
            self.wf(),
        ensures
            leading(path@, '/') == path@.len() ==> r is Ok && r->Ok_0.attr == ATTR_DIRECTORY && first_cluster_of(
                r->Ok_0,
            ) == self.root_cluster,
            leading(path@, '/') < path@.len() && r is Ok && dev.spec_sector_size() == 512 ==> ({
                &&& path_lookup(dev, *self, path@) matches Some((c, k))
                &&& 0 <= k < dir_listing(dev, *self, c).len()
                &&& entry_matches(r->Ok_0, dir_listing(dev, *self, c)[k], 0)
            }),
            leading(path@, '/') < path@.len() && dev.spec_sector_size() == 512 && r == Err::<
                Fat32DirEntry,
                Fat32Error,
            >(Fat32Error::NotFound) ==> path_lookup(dev, *self, path@) is None,
            r is Err ==> r->Err_0 == Fat32Error::NotFound || r->Err_0 is BlockError,
    {
        let chars = chars_of(path);
        let mut start: usize = 0;
        assert(path@.skip(0) =~= path@);
        while start < chars.len() && chars[start] == '/'
            invariant
                start <= chars@.len(),
                chars@ == path@,
                leading(path@.skip(start as int), '/') + start == leading(path@, '/'),
            decreases chars@.len() - start,
        {
            proof {
                assert(path@.skip(start as int).drop_first() =~= path@.skip(start + 1));
                assert(path@.skip(start as int)[0] == chars@[start as int]);
            }
            start = start + 1;
        }
        if start == chars.len() {
            let hi = (self.root_cluster >> 16) as u16;
            let lo = self.root_cluster as u16;
            let e = Fat32DirEntry {
                name: [0x2Fu8, 0x20, 0x20, 0x20, 0x20, 0x20, 0x20, 0x20, 0x20, 0x20, 0x20],
                attr: ATTR_DIRECTORY,
                nt_res: 0,
                crt_time_tenth: 0,
                crt_time: 0,
                crt_date: 0,
                lst_acc_date: 0,
                first_cluster_hi: hi,
                wrt_time: 0,
                wrt_date: 0,
                first_cluster_lo: lo,
                file_size: 0,
            };
            proof {
                lemma_cluster_halves(self.root_cluster);
            }
            return Ok(e);
        }
        proof {
            assert(path@.skip(start as int)[0] == chars@[start as int]);
            assert(leading(path@.skip(start as int), '/') == 0);
            assert(leading(path@, '/') < path@.len());
        }
        let rest = vstd::slice::slice_subrange(chars.as_slice(), start, chars.len());
        proof {
            assert(rest@ =~= path@.skip(leading(path@, '/')));
            assert(rest@.skip(0) =~= rest@);
        }
        let mut current = self.root_cluster;
        let mut comp_start: usize = 0;
        let mut idx: usize = 0;
        let mut done = false;
        while !done
            invariant
                comp_start <= idx,
                idx <= rest@.len(),
                self.wf(),
                leading(path@, '/') < path@.len(),
                rest@ == path@.skip(leading(path@, '/')),
                forall|m: int| comp_start <= m < idx ==> #[trigger] rest@[m] != '/',
                dev.spec_sector_size() == 512 ==> if done {
                    path_lookup(dev, *self, path@) is None
                } else {
                    walk(dev, *self, rest@, rest@.skip(comp_start as int), current) == path_lookup(dev, *self, path@)
                },
            decreases rest@.len() - idx, (if done { 0int } else { 1int }),
        {
            let at_end = idx == rest.len();
            if at_end || rest[idx] == '/' {
                let ghost tail = rest@.skip(comp_start as int);
                let ghost n = idx - comp_start;
                proof {
                    assert forall|m: int| 0 <= m < n implies #[trigger] tail[m] != '/' by {
                        assert(tail[m] == rest@[comp_start + m]);
                    }
                    if n < tail.len() {
                        assert(tail[n] == rest@[idx as int]);
                    }
                    lemma_first_slash(tail, n);
                    assert(tail.take(n) =~= rest@.subrange(comp_start as int, idx as int));
                    if n < tail.len() {
                        assert(tail.skip(n + 1) =~= rest@.skip(idx + 1));
                    }
                }
                if idx > comp_start {
                    let ghost listed_dir = current;
                    let entries = match self.list_directory(dev, current) {
                        Ok(e) => e,
                        Err(e) => {
                            return Err(e);
                        },
                    };
                    let comp = slice_to_vec(rest, comp_start, idx);
                    let comp_upper = upper_of(string_of_chars(&comp).as_str());
                    let j = first_match(&entries, &comp_upper);
                    let ghost raws = dir_listing(dev, *self, listed_dir);
                    proof {
                        if dev.spec_sector_size() == 512 {
                            assert forall|m: int| 0 <= m < j implies uppercase_of(shown_name(#[trigger] raws[m]))
                                != comp_upper@ by {
                                assert(entries@[m].0@ == shown_name(raws[m]));
                            }
                            if j < entries@.len() {
                                assert(entries@[j as int].0@ == shown_name(raws[j as int]));
                            }
                            lemma_first_named(raws, comp_upper@, j as int);
                        }
                    }
                    if j == entries.len() {
                        return Err(Fat32Error::NotFound);
                    }
                    let entry = entries[j].1;
                    if ends_with(rest, &comp) {
                        proof {
                            if dev.spec_sector_size() == 512 {
                                assert(entry_matches(entry, raws[j as int], 0));
                            }
                        }
                        let res: Result<Fat32DirEntry, Fat32Error> = Ok(entry);
                        assert(res is Ok ==> res->Ok_0 == entry);
                        return res;
                    }
                    if entry.attr & ATTR_DIRECTORY != 0 {
                        current = entry.first_cluster();
                    }
                    proof {
                        if dev.spec_sector_size() == 512 {
                            assert(entry_matches(entry, raws[j as int], 0));
                            assert(first_cluster_of(entry) == slot_cluster(raws[j as int]));
                        }
                    }
                }
                comp_start = if idx < rest.len() { idx + 1 } else { rest.len() };
            }
            if at_end {
                done = true;
            } else {
                idx = idx + 1;
            }
        }
        Err(Fat32Error::NotFound)
    }

    /// The contents of a file entry: `file_size` bytes along its cluster chain
    /// (fewer when the chain is shorter); a directory is refused.
    pub fn read_file<D: BlockDevice>(&self, dev: &D, entry: &Fat32DirEntry) -> (r: Result<Vec<u8>, Fat32Error>)
        requires
            self.wf(),
        ensures
            entry.attr & ATTR_DIRECTORY != 0 ==> r == Err::<Vec<u8>, Fat32Error>(Fat32Error::NotAFile),
            r is Ok ==> r->Ok_0@.len() <= entry.file_size,
            r is Ok && dev.spec_sector_size() == 512 ==> r->Ok_0@ == first_bytes(
                chain_bytes(dev, *self, chain_of(dev, *self, first_cluster_of(*entry))),
                entry.file_size as int,
            ),
    {
        if entry.attr & ATTR_DIRECTORY != 0 {
            return Err(Fat32Error::NotAFile);
        }
        let start_cluster = entry.first_cluster();
        let file_size = entry.file_size as usize;
        let size = self.cluster_size();
        let clusters = match self.get_cluster_chain(dev, start_cluster) {
            Ok(c) => c,
            Err(e) => {
                return Err(e);
            },
        };
        let mut data: Vec<u8> = Vec::new();
        let mut remaining = file_size;
        let mut ci: usize = 0;
        assert(clusters@.take(0) =~= Seq::<u32>::empty());
        while ci < clusters.len() && remaining > 0
            invariant
                self.wf(),
                ci <= clusters@.len(),
                entry.attr & ATTR_DIRECTORY == 0,
                size == self.spec_cluster_size(),
                data@.len() + remaining == file_size,
                file_size == entry.file_size,
                forall|i: int| 0 <= i < clusters@.len() ==> 2 <= #[trigger] clusters@[i] < FAT_END_MIN,
                remaining > 0 ==> data@.len() == ci * size,
                dev.spec_sector_size() == 512 ==> data@ == first_bytes(
                    chain_bytes(dev, *self, clusters@.take(ci as int)),
                    file_size as int,
                ),
            decreases clusters@.len() - ci,
        {
            let buf = match self.read_cluster(dev, clusters[ci]) {
                Ok(b) => b,
                Err(e) => {
                    return Err(e);
                },
            };
            let ghost before = data@;
            let to_copy = if remaining < size { remaining } else { size };
            let mut k: usize = 0;
            while k < to_copy
                invariant
                    k <= to_copy,
                    to_copy <= buf@.len(),
                    to_copy <= remaining,
                    data@.len() + remaining == file_size + k,
                    data@ == before + buf@.take(k as int),
                decreases to_copy - k,
            {
                data.push(buf[k]);
                k = k + 1;
                assert(data@ =~= before + buf@.take(k as int));
            }
            proof {
                lemma_chain_bytes_len(dev, *self, clusters@.take(ci as int));
                if dev.spec_sector_size() == 512 {
                    let prev = chain_bytes(dev, *self, clusters@.take(ci as int));
                    let next = chain_bytes(dev, *self, clusters@.take(ci + 1));
                    assert(clusters@.take(ci + 1).drop_last() =~= clusters@.take(ci as int));
                    assert(next == prev + buf@);
                    assert(before == prev);
                    if to_copy == size {
                        assert(buf@.take(size as int) =~= buf@);
                        assert(data@ =~= first_bytes(next, file_size as int));
                    } else {
                        assert(data@ =~= first_bytes(next, file_size as int));
                    }
                }
                assert((ci + 1) * size == ci * size + size) by (nonlinear_arith);
            }
            remaining = remaining - to_copy;
            ci = ci + 1;
        }
        proof {
            if dev.spec_sector_size() == 512 {
                let whole = chain_bytes(dev, *self, clusters@);
                assert(clusters@.take(clusters@.len() as int) =~= clusters@);
                if ci < clusters.len() {
                    lemma_chain_bytes_prefix(dev, *self, clusters@, ci as int, clusters@.len() as int);
                    lemma_chain_bytes_len(dev, *self, clusters@);
                    let prefix = chain_bytes(dev, *self, clusters@.take(ci as int));
                    assert(chain_bytes(dev, *self, clusters@.take(clusters@.len() as int)) == whole);
                    assert(whole.take(ci * size) == prefix);
                    assert(file_size <= prefix.len());
                    assert(ci * size <= clusters@.len() * size) by (nonlinear_arith)
                        requires
                            ci <= clusters@.len(),
                            size >= 0,
                    ;
                    assert(whole.take(file_size as int) =~= prefix.take(file_size as int));
                    if file_size < prefix.len() {
                        assert(first_bytes(whole, file_size as int) == whole.take(file_size as int));
                    } else {
                        assert(prefix.take(file_size as int) =~= prefix);
                        if file_size < whole.len() {
                            assert(first_bytes(whole, file_size as int) == whole.take(file_size as int));
                        } else {
                            assert(whole.take(file_size as int) =~= whole);
                        }
                    }
                }
            }
        }
        Ok(data)
    }

    /// The entries of the root directory.
    pub fn list_root<D: BlockDevice>(&self, dev: &D) -> (r: Result<Vec<(String, Fat32DirEntry)>, Fat32Error>)
        requires
            self.wf(),
        ensures
            r is Ok ==> forall|i: int| 0 <= i < r->Ok_0@.len() ==> {
                let e = (#[trigger] r->Ok_0@[i]).1;
                &&& e.name@[0] != 0 && e.name@[0] != 0xE5
                &&& e.attr != ATTR_LONG_NAME && e.attr & ATTR_VOLUME_ID == 0
                &&& r->Ok_0@[i].0@ == lowercase_of(short_name_chars(e.name@))
            },
            r is Ok && dev.spec_sector_size() == 512 ==> listed_as(
                r->Ok_0@,
                listing(chain_slots(dev, *self, chain_of(dev, *self, self.root_cluster))),
            ),
            r is Err ==> r->Err_0 is BlockError,
    {
        self.list_directory(dev, self.root_cluster)
    }

    /// Sets the FAT entry of `cluster` to `value`, keeping the entry's top four bits.
    fn write_fat_entry<D: BlockDevice>(&self, dev: &D, cluster: u32, value: u32) -> (r: Result<(), Fat32Error>)
        requires
            self.wf(),
        ensures
            r is Ok && dev.spec_sector_size() == 512 ==> fat_took(dev, *self, cluster, value),
            r is Err ==> r->Err_0 is BlockError,
    {
        let (mut buf, at, byte_offset) = match self.fat_sector(dev, cluster) {
            Ok(t) => t,
            Err(e) => {
                return Err(e);
            },
        };
        let existing = read_le32(buf.as_slice(), at);
        let new_value = (existing & 0xF000_0000) | (value & 0x0FFF_FFFF);
        buf.set(at, (new_value & 0xff) as u8);
        buf.set(at + 1, ((new_value >> 8) & 0xff) as u8);
        buf.set(at + 2, ((new_value >> 16) & 0xff) as u8);
        buf.set(at + 3, (new_value >> 24) as u8);
        match write_bytes(dev, byte_offset, buf.as_slice()) {
            Ok(()) => {
                proof {
                    reveal(fat_took);
                    if dev.spec_sector_size() == 512 {
                        let part = buf@.subrange(at as int, at + 4);
                        lemma_took_part(dev, byte_offset as int, buf@, at as int, 4);
                        assert(part =~= le32_bytes(new_value));
                        assert(part.subrange(0, 4) =~= part);
                        lemma_le32_roundtrip(new_value, part, 0);
                        assert(new_value & 0x0FFF_FFFFu32 == value & 0x0FFF_FFFFu32) by (bit_vector)
                            requires
                                new_value == (existing & 0xF000_0000u32) | (value & 0x0FFF_FFFFu32),
                        ;
                        assert(took_bytes(dev, fat_entry_start(*self, cluster), part));
                    }
                }
                Ok(())
            },
            Err(e) => Err(Fat32Error::BlockError(e)),
        }
    }

    /// The first free cluster, searching from 2 across the volume's clusters.
    fn find_free_cluster<D: BlockDevice>(&self, dev: &D) -> (r: Result<u32, Fat32Error>)
        requires
            self.wf(),
        ensures
            r is Ok ==> 2 <= r->Ok_0 < self.total_clusters + 2,
            r is Ok && dev.spec_sector_size() == 512 ==> fat_entry(dev, *self, r->Ok_0) == FAT_FREE && forall|c: u32|
                2 <= c < r->Ok_0 ==> #[trigger] fat_entry(dev, *self, c) != FAT_FREE,
            r == Err::<u32, Fat32Error>(Fat32Error::NoSpace) && dev.spec_sector_size() == 512 ==> forall|c: u32|
                2 <= c < self.total_clusters + 2 ==> #[trigger] fat_entry(dev, *self, c) != FAT_FREE,
            r is Err ==> r->Err_0 == Fat32Error::NoSpace || r->Err_0 is BlockError,
    {
        let end: u64 = self.total_clusters as u64 + 2;
        let mut c: u64 = 2;
        while c < end
            invariant
                2 <= c <= end,
                end == self.total_clusters + 2,
                self.wf(),
                dev.spec_sector_size() == 512 ==> forall|k: u32| 2 <= k < c ==> #[trigger] fat_entry(dev, *self, k) != FAT_FREE,
            decreases end - c,
        {
            let entry = match self.read_fat_entry(dev, c as u32) {
                Ok(e) => e,
                Err(e) => {
                    return Err(e);
                },
            };
            if entry == FAT_FREE {
                return Ok(c as u32);
            }
            c = c + 1;
        }
        Err(Fat32Error::NoSpace)
    }

    /// Allocates `count` clusters, each marked end-of-chain and linked from the one
    /// before.
    fn allocate_clusters<D: BlockDevice>(&self, dev: &D, count: usize) -> (r: Result<Vec<u32>, Fat32Error>)
        requires
            self.wf(),
        ensures
            count == 0 ==> r is Ok,
            r is Ok ==> r->Ok_0@.len() == count && forall|i: int|
                0 <= i < count ==> 2 <= #[trigger] r->Ok_0@[i] < self.total_clusters + 2,
            r is Ok && dev.spec_sector_size() == 512 ==> forall|i: int|
                0 <= i < count ==> fat_took(
                    dev,
                    *self,
                    #[trigger] r->Ok_0@[i],
                    if i + 1 < count {
                        r->Ok_0@[i + 1]
                    } else {
                        FAT_END_MAX
                    },
                ),
            r is Err ==> r->Err_0 == Fat32Error::NoSpace || r->Err_0 is BlockError,
    {
        let mut chain: Vec<u32> = Vec::new();
        let mut n: usize = 0;
        while n < count
            invariant
                n <= count,
                chain@.len() == n,
                forall|i: int| 0 <= i < n ==> 2 <= #[trigger] chain@[i] < self.total_clusters + 2,
                self.wf(),
                dev.spec_sector_size() == 512 ==> forall|i: int|
                    0 <= i < n ==> fat_took(
                        dev,
                        *self,
                        #[trigger] chain@[i],
                        if i + 1 < n {
                            chain@[i + 1]
                        } else {
                            FAT_END_MAX
                        },
                    ),
            decreases count - n,
        {
            let cluster = match self.find_free_cluster(dev) {
                Ok(c) => c,
                Err(e) => {
                    return Err(e);
                },
            };
            match self.write_fat_entry(dev, cluster, FAT_END_MAX) {
                Ok(()) => {},
                Err(e) => {
                    return Err(e);
                },
            }
            if chain.len() > 0 {
                let prev = chain[chain.len() - 1];
                match self.write_fat_entry(dev, prev, cluster) {
                    Ok(()) => {},
                    Err(e) => {
                        return Err(e);
                    },
                }
            }
            chain.push(cluster);
            n = n + 1;
        }
        Ok(chain)
    }

    /// Marks every cluster of the chain from `start` free.
    fn free_cluster_chain<D: BlockDevice>(&self, dev: &D, start: u32) -> (r: Result<(), Fat32Error>)
        requires
            self.wf(),
        ensures
            !(2 <= start < FAT_END_MIN) ==> r is Ok,
            r is Ok && dev.spec_sector_size() == 512 ==> forall|i: int|
                0 <= i < chain_of(dev, *self, start).len() ==> fat_took(
                    dev,
                    *self,
                    #[trigger] chain_of(dev, *self, start)[i],
                    FAT_FREE,
                ),
            r is Err ==> r->Err_0 is BlockError,
    {
        let chain = match self.get_cluster_chain(dev, start) {
            Ok(c) => c,
            Err(e) => {
                return Err(e);
            },
        };
        let mut i: usize = 0;
        while i < chain.len()
            invariant
                i <= chain@.len(),
                self.wf(),
                dev.spec_sector_size() == 512 ==> chain@ == chain_of(dev, *self, start),
                dev.spec_sector_size() == 512 ==> forall|k: int| 0 <= k < i ==> fat_took(dev, *self, #[trigger] chain@[k], FAT_FREE),
                !(2 <= start < FAT_END_MIN) ==> chain@.len() == 0,
            decreases chain@.len() - i,
        {
            match self.write_fat_entry(dev, chain[i], FAT_FREE) {
                Ok(()) => {},
                Err(e) => {
                    return Err(e);
                },
            }
            i = i + 1;
        }
        Ok(())
    }

    /// Writes a cluster: `data` padded with zeros to the cluster size, or its first
    /// cluster-size bytes.
    fn write_cluster<D: BlockDevice>(&self, dev: &D, cluster: u32, data: &[u8]) -> (r: Result<(), Fat32Error>)
        requires
            self.wf(),
            cluster >= 2,
        ensures
            r is Ok && dev.spec_sector_size() == 512 ==> took_bytes(
                dev,
                cluster_start(*self, cluster),
                padded(data@, self.spec_cluster_size()),
            ),
            r is Err ==> r->Err_0 is BlockError,
    {
        let sector = self.cluster_to_sector(cluster);
        let size = self.cluster_size();
        let byte_offset = match self.sector_offset(sector) {
            Some(o) => o,
            None => {
                return Err(Fat32Error::BlockError(BlockError::InvalidSector));
            },
        };
        let mut buf: Vec<u8> = Vec::new();
        let mut i: usize = 0;
        while i < size
            invariant
                i <= size,
                buf@.len() == i,
                forall|k: int| 0 <= k < i ==> #[trigger] buf@[k] == (if k < data@.len() { data@[k] } else { 0u8 }),
            decreases size - i,
        {
            if i < data.len() {
                buf.push(data[i]);
            } else {
                buf.push(0);
            }
            i = i + 1;
        }
        assert(buf@ =~= padded(data@, self.spec_cluster_size()));
        match write_bytes(dev, byte_offset, buf.as_slice()) {
            Ok(()) => Ok(()),
            Err(e) => Err(Fat32Error::BlockError(e)),
        }
    }

    /// The 8.3 form of a name: in upper case (`short_name_from_upper` of that).
    pub fn to_short_name(name: &str) -> (r: Result<[u8; 11], Fat32Error>)
        ensures
            r is Ok <==> short_name_valid(uppercase_of(name@)),
            r is Ok ==> r->Ok_0@ == short_name_bytes(uppercase_of(name@)),
            r is Err ==> r->Err_0 == Fat32Error::InvalidFilename,
    {
        let upper = to_uppercase(name);
        Fat32::short_name_from_upper(upper.as_str())
    }

    /// The 8.3 form of an upper-cased name, split at its last dot: the base must
    /// be 1 to 8 ASCII letters, digits, `_` or `-`, the extension's first three
    /// characters ASCII letters or digits (the rest of it is dropped); both space
    /// padded.
    pub fn short_name_from_upper(upper: &str) -> (r: Result<[u8; 11], Fat32Error>)
        ensures
            r is Ok <==> short_name_valid(upper@),
            r is Ok ==> r->Ok_0@ == short_name_bytes(upper@),
            r is Err ==> r->Err_0 == Fat32Error::InvalidFilename,
    {
        let chars = chars_of(upper);
        let ghost s = upper@;
        let mut dot: usize = chars.len();
        let mut k: usize = 0;
        while k < chars.len()
            invariant
                k <= chars@.len(),
                chars@ == s,
                s == upper@,
                dot == (if last_dot(s.take(k as int)) < k { last_dot(s.take(k as int)) } else { s.len() as int }),
            decreases chars@.len() - k,
        {
            proof {
                assert(s.take(k + 1).drop_last() =~= s.take(k as int));
                assert(s.take(k + 1).last() == s[k as int]);
            }
            if chars[k] == '.' {
                dot = k;
            }
            k = k + 1;
        }
        proof {
            assert(s.take(s.len() as int) =~= s);
            lemma_last_dot_bound(s);
        }
        let base_end = dot;
        let ext_start = if dot < chars.len() { dot + 1 } else { chars.len() };
        let mut result = [0x20u8; 11];
        if base_end == 0 || base_end > 8 {
            return Err(Fat32Error::InvalidFilename);
        }
        let mut i: usize = 0;
        while i < base_end
            invariant
                i <= base_end,
                base_end == last_dot(s),
                1 <= base_end <= 8,
                base_end <= chars@.len(),
                chars@ == s,
                s == upper@,
                forall|m: int| 0 <= m < i ==> base_char(#[trigger] s[m]),
                forall|m: int| 0 <= m < i ==> #[trigger] result@[m] == s[m] as u8,
                forall|m: int| i <= m < 11 ==> #[trigger] result@[m] == 0x20u8,
            decreases base_end - i,
        {
            let c = chars[i];
            if !(is_ascii_alnum(c) || c == '_' || c == '-') {
                assert(!base_char(s[i as int]));
                return Err(Fat32Error::InvalidFilename);
            }
            result[i] = c as u8;
            i = i + 1;
        }
        let ghost ext = ext_part(s);
        let mut j: usize = 0;
        while j < 3 && j < chars.len() - ext_start
            invariant
                j <= 3,
                ext_start == ext_start_of(s),
                ext_start <= chars@.len(),
                chars@ == s,
                s == upper@,
                ext == ext_part(s),
                j <= ext.len(),
                base_end == last_dot(s),
                1 <= base_end <= 8,
                forall|m: int| 0 <= m < base_end ==> base_char(#[trigger] s[m]),
                forall|m: int| 0 <= m < j ==> ascii_alnum(#[trigger] ext[m]),
                forall|m: int| 0 <= m < base_end ==> #[trigger] result@[m] == s[m] as u8,
                forall|m: int| base_end <= m < 8 ==> #[trigger] result@[m] == 0x20u8,
                forall|m: int| 0 <= m < j ==> #[trigger] result@[8 + m] == ext[m] as u8,
                forall|m: int| j <= m < 3 ==> #[trigger] result@[8 + m] == 0x20u8,
            decreases 3 - j,
        {
            let c = chars[ext_start + j];
            assert(c == ext[j as int]);
            if !is_ascii_alnum(c) {
                assert(!ascii_alnum(ext_part(s)[j as int]));
                return Err(Fat32Error::InvalidFilename);
            }
            result[8 + j] = c as u8;
            j = j + 1;
        }
        proof {
            assert(j == ext.len());
            assert forall|m: int| 0 <= m < 11 implies #[trigger] result@[m] == short_name_bytes(s)[m] by {
                if m >= 8 {
                    assert(result@[8 + (m - 8)] == result@[m]);
                }
            }
            assert(result@ =~= short_name_bytes(s));
        }
        Ok(result)
    }

    /// A free directory slot: the first slot (cluster and index) whose name starts
    /// with 0 or 0xE5 along the chain; with none, a new zeroed cluster appended to
    /// the chain, slot 0.
    fn find_empty_dir_entry<D: BlockDevice>(&self, dev: &D, dir_cluster: u32) -> (r: Result<(u32, usize), Fat32Error>)
        requires
            self.wf(),
        ensures
            r is Ok ==> r->Ok_0.0 >= 2 && r->Ok_0.1 < self.spec_cluster_size() / 32,
            r is Ok && dev.spec_sector_size() == 512 ==> free_place(dev, *self, dir_cluster, r->Ok_0.0, r->Ok_0.1 as int),
            r is Err ==> r->Err_0 == Fat32Error::NoSpace || r->Err_0 == Fat32Error::InvalidFilesystem
                || r->Err_0 is BlockError,
    {
        let size = self.cluster_size();
        let per_cluster = size / 32;
        let clusters = match self.get_cluster_chain(dev, dir_cluster) {
            Ok(c) => c,
            Err(e) => {
                return Err(e);
            },
        };
        let mut ci: usize = 0;
        while ci < clusters.len()
            invariant
                self.wf(),
                ci <= clusters@.len(),
                size == self.spec_cluster_size(),
                per_cluster == size / 32,
                forall|i: int| 0 <= i < clusters@.len() ==> 2 <= #[trigger] clusters@[i] < FAT_END_MIN,
                dev.spec_sector_size() == 512 ==> clusters@ == chain_of(dev, *self, dir_cluster),
                dev.spec_sector_size() == 512 ==> none_free(dev, *self, clusters@, ci as int),
            decreases clusters@.len() - ci,
        {
            let buf = match self.read_cluster(dev, clusters[ci]) {
                Ok(b) => b,
                Err(e) => {
                    return Err(e);
                },
            };
            let mut i: usize = 0;
            while i < per_cluster
                invariant
                    per_cluster == size / 32,
                    size == self.spec_cluster_size(),
                    buf@.len() == size,
                    ci < clusters@.len(),
                    self.wf(),
                    forall|j: int| 0 <= j < clusters@.len() ==> 2 <= #[trigger] clusters@[j] < FAT_END_MIN,
                    dev.spec_sector_size() == 512 ==> buf@ == cluster_bytes(dev, *self, clusters@[ci as int]),
                    dev.spec_sector_size() == 512 ==> clusters@ == chain_of(dev, *self, dir_cluster),
                    dev.spec_sector_size() == 512 ==> none_free(dev, *self, clusters@, ci as int),
                    forall|k: int| 0 <= k < i ==> !#[trigger] slot_free(buf@, k),
                decreases per_cluster - i,
            {
                proof {
                    assert(i * 32 < size) by (nonlinear_arith)
                        requires
                            i < per_cluster,
                            per_cluster == size / 32,
                    ;
                }
                let first = buf[i * 32];
                if first == 0x00 || first == 0xE5 {
                    proof {
                        if dev.spec_sector_size() == 512 {
                            let chain = chain_of(dev, *self, dir_cluster);
                            assert(chain[ci as int] == clusters@[ci as int]);
                            assert(slot_free(cluster_bytes(dev, *self, clusters@[ci as int]), i as int));
                        }
                    }
                    return Ok((clusters[ci], i));
                }
                i = i + 1;
            }
            proof {
                if dev.spec_sector_size() == 512 {
                    assert forall|j: int, k: int| 0 <= j < ci + 1 && 0 <= k < self.spec_cluster_size() / 32 implies
                        !#[trigger] slot_free(cluster_bytes(dev, *self, clusters@[j]), k) by {
                        if j < ci {
                            assert(none_free(dev, *self, clusters@, ci as int));
                        } else {
                            assert(!slot_free(buf@, k));
                        }
                    }
                }
            }
            ci = ci + 1;
        }
        let fresh = match self.allocate_clusters(dev, 1) {
            Ok(c) => c,
            Err(e) => {
                return Err(e);
            },
        };
        let new_cluster = fresh[0];
        let chain = match self.get_cluster_chain(dev, dir_cluster) {
            Ok(c) => c,
            Err(e) => {
                return Err(e);
            },
        };
        if chain.len() == 0 {
            return Err(Fat32Error::InvalidFilesystem);
        }
        let last = chain[chain.len() - 1];
        match self.write_fat_entry(dev, last, new_cluster) {
            Ok(()) => {},
            Err(e) => {
                return Err(e);
            },
        }
        let empty: Vec<u8> = Vec::new();
        match self.write_cluster(dev, new_cluster, empty.as_slice()) {
            Ok(()) => {},
            Err(e) => {
                return Err(e);
            },
        }
        if per_cluster == 0 {
            return Err(Fat32Error::InvalidFilesystem);
        }
        proof {
            if dev.spec_sector_size() == 512 {
                assert(empty@ =~= Seq::<u8>::empty());
                assert(fat_took(dev, *self, fresh@[0], FAT_END_MAX));
                assert(chain@.last() == last);
            }
        }
        Ok((new_cluster, 0))
    }

    /// Writes `entry` into slot `slot` of cluster `dir_cluster`.
    fn write_dir_entry<D: BlockDevice>(&self, dev: &D, dir_cluster: u32, slot: usize, entry: &Fat32DirEntry) -> (r:
        Result<(), Fat32Error>)
        requires
            self.wf(),
            dir_cluster >= 2,
            slot < self.spec_cluster_size() / 32,
        ensures
            r is Ok && dev.spec_sector_size() == 512 ==> entry_took(dev, *self, dir_cluster, slot as int, *entry),
            r is Err ==> r->Err_0 is BlockError,
    {
        let mut buf = match self.read_cluster(dev, dir_cluster) {
            Ok(b) => b,
            Err(e) => {
                return Err(e);
            },
        };
        let bytes = entry.to_bytes();
        proof {
            assert(self.spec_cluster_size() <= 255 * 512) by (nonlinear_arith)
                requires
                    self.sectors_per_cluster <= 255,
                    self.bytes_per_sector <= 512,
                    self.sectors_per_cluster >= 0,
                    self.bytes_per_sector >= 0,
            ;
            assert(slot * 32 + 32 <= self.spec_cluster_size()) by (nonlinear_arith)
                requires
                    slot < self.spec_cluster_size() / 32,
                    self.spec_cluster_size() >= 0,
            ;
        }
        let mut k: usize = 0;
        while k < 32
            invariant
                k <= 32,
                bytes@.len() == 32,
                buf@.len() == self.spec_cluster_size(),
                buf@.len() <= 255 * 512,
                slot * 32 + 32 <= buf@.len(),
                forall|m: int| 0 <= m < k ==> #[trigger] buf@[slot * 32 + m] == bytes@[m],
            decreases 32 - k,
        {
            buf.set(slot * 32 + k, bytes[k]);
            k = k + 1;
        }
        let res = self.write_cluster(dev, dir_cluster, buf.as_slice());
        proof {
            if res is Ok && dev.spec_sector_size() == 512 {
                let st = cluster_start(*self, dir_cluster);
                assert(st >= 0) by (nonlinear_arith)
                    requires
                        st == (self.data_start_sector + (dir_cluster - 2) * self.sectors_per_cluster) * self.bytes_per_sector,
                        dir_cluster >= 2,
                ;
                assert(padded(buf@, self.spec_cluster_size()) =~= buf@);
                lemma_took_part(dev, st, buf@, slot * 32, 32);
                let part = buf@.subrange(slot * 32, slot * 32 + 32);
                assert forall|m: int| 0 <= m < 32 implies part[m] == bytes@[m] by {
                    assert(buf@[slot * 32 + m] == bytes@[m]);
                }
                assert(part =~= bytes@);
                assert(slot_took(dev, *self, dir_cluster, slot as int, bytes@));
            }
        }
        res
    }

    /// Writes `data` into newly allocated clusters; the first cluster, or 0 for no data.
    fn store_data<D: BlockDevice>(&self, dev: &D, data: &[u8]) -> (r: Result<u32, Fat32Error>)
        requires
            self.wf(),
        ensures
            data@.len() == 0 ==> r == Ok::<u32, Fat32Error>(0),
            r is Ok && dev.spec_sector_size() == 512 ==> stored_at(dev, *self, r->Ok_0, data@),
            r is Err ==> r->Err_0 == Fat32Error::NoSpace || r->Err_0 is BlockError,
    {
        let size = self.cluster_size();
        if data.len() == 0 {
            return Ok(0);
        }
        proof {
            assert(size > 0) by (nonlinear_arith)
                requires
                    size == self.sectors_per_cluster * self.bytes_per_sector,
                    self.sectors_per_cluster > 0,
                    self.bytes_per_sector > 0,
            ;
        }
        let q = data.len() / size;
        proof {
            let dl = data@.len() as int;
            assert(dl % (size as int) != 0 ==> (q as int) < usize::MAX) by (nonlinear_arith)
                requires
                    size > 0,
                    q as int == dl / (size as int),
                    dl <= usize::MAX,
            ;
        }
        let needed = if data.len() % size != 0 { q + 1 } else { q };
        let clusters = match self.allocate_clusters(dev, needed) {
            Ok(c) => c,
            Err(e) => {
                return Err(e);
            },
        };
        assert(needed == clusters_needed(data@.len() as int, size as int));
        let mut i: usize = 0;
        while i < clusters.len()
            invariant
                i <= clusters@.len(),
                size == self.spec_cluster_size(),
                size > 0,
                self.wf(),
                data@.len() > 0,
                clusters@.len() == clusters_needed(data@.len() as int, size as int),
                forall|j: int| 0 <= j < clusters@.len() ==> 2 <= #[trigger] clusters@[j] < self.total_clusters + 2,
                dev.spec_sector_size() == 512 ==> forall|j: int|
                    0 <= j < i ==> took_bytes(
                        dev,
                        cluster_start(*self, #[trigger] clusters@[j]),
                        padded(chunk(data@, size as int, j), size as int),
                    ),
            decreases clusters@.len() - i,
        {
            let start = match i.checked_mul(size) {
                Some(v) => if v <= data.len() { v } else { data.len() },
                None => data.len(),
            };
            let end = if data.len() - start < size { data.len() } else { start + size };
            let piece = vstd::slice::slice_subrange(data, start, end);
            assert(piece@ == chunk(data@, size as int, i as int)) by {
                let st = if i * size <= data@.len() { i * size } else { data@.len() as int };
                assert(start == st);
                assert(piece@ =~= data@.subrange(start as int, end as int));
            }
            match self.write_cluster(dev, clusters[i], piece) {
                Ok(()) => {},
                Err(e) => {
                    return Err(e);
                },
            }
            i = i + 1;
        }
        if clusters.len() == 0 {
            proof {
                assert(clusters_needed(data@.len() as int, size as int) > 0) by (nonlinear_arith)
                    requires
                        size > 0,
                        data@.len() > 0,
                ;
            }
            return Ok(0);
        }
        proof {
            if dev.spec_sector_size() == 512 {
                assert(stored_in(dev, *self, clusters@, data@));
            }
        }
        Ok(clusters[0])
    }

    /// The first cluster of the directory at `dir_path` (a path of slashes only,
    /// or an empty one, is the root).
    fn dir_cluster<D: BlockDevice>(&self, dev: &D, dir_path: &str) -> (r: Result<u32, Fat32Error>)
        requires
            self.wf(),
        ensures
            leading(dir_path@, '/') == dir_path@.len() ==> r == Ok::<u32, Fat32Error>(self.root_cluster),
            r is Ok && dev.spec_sector_size() == 512 ==> dir_target(dev, *self, dir_path@) == Some(r->Ok_0),
            r is Err && (r->Err_0 == Fat32Error::NotFound || r->Err_0 == Fat32Error::NotADirectory)
                && dev.spec_sector_size() == 512 ==> dir_target(dev, *self, dir_path@) is None,
            r is Err ==> r->Err_0 == Fat32Error::NotFound || r->Err_0 == Fat32Error::NotADirectory
                || r->Err_0 is BlockError,
    {
        proof {
            lemma_leading_bound(dir_path@, '/');
        }
        let c = chars_of(dir_path);
        if c.len() == 0 || (c.len() == 1 && c[0] == '/') {
            proof {
                if dir_path@.len() == 1 {
                    assert(dir_path@.drop_first().len() == 0);
                    assert(leading(dir_path@.drop_first(), '/') == 0);
                }
            }
            return Ok(self.root_cluster);
        }
        let entry = match self.find_entry(dev, dir_path) {
            Ok(e) => e,
            Err(e) => {
                return Err(e);
            },
        };
        if entry.attr & ATTR_DIRECTORY == 0 {
            proof {
                if leading(dir_path@, '/') == dir_path@.len() {
                    assert(entry.attr == 0x10u8);
                    assert(0x10u8 & 0x10u8 != 0) by (bit_vector);
                }
                if dev.spec_sector_size() == 512 && leading(dir_path@, '/') < dir_path@.len() {
                    let (pc, k) = path_lookup(dev, *self, dir_path@).unwrap();
                    assert(entry_matches(entry, dir_listing(dev, *self, pc)[k], 0));
                }
            }
            return Err(Fat32Error::NotADirectory);
        }
        proof {
            if dev.spec_sector_size() == 512 && leading(dir_path@, '/') < dir_path@.len() {
                let (pc, k) = path_lookup(dev, *self, dir_path@).unwrap();
                assert(entry_matches(entry, dir_listing(dev, *self, pc)[k], 0));
                assert(first_cluster_of(entry) == slot_cluster(dir_listing(dev, *self, pc)[k]));
            }
        }
        let res: Result<u32, Fat32Error> = Ok(entry.first_cluster());
        res
    }

    /// Creates file `name` in directory `dir_path` holding `data`: the name must
    /// have an 8.3 form and be new (ignoring case); the data goes to new
    /// clusters, and an archive entry for it to the first free slot.
    pub fn create_file<D: BlockDevice>(&self, dev: &D, dir_path: &str, name: &str, data: &[u8]) -> (r: Result<
        (),
        Fat32Error,
    >)
        requires
            self.wf(),
        ensures
            !short_name_valid(uppercase_of(name@)) ==> r == Err::<(), Fat32Error>(Fat32Error::InvalidFilename),
            r == Err::<(), Fat32Error>(Fat32Error::AlreadyExists) && dev.spec_sector_size() == 512 ==> ({
                &&& dir_target(dev, *self, dir_path@) matches Some(p)
                &&& first_named(dir_listing(dev, *self, p), uppercase_of(name@)) < dir_listing(dev, *self, p).len()
            }),
            r is Ok && dev.spec_sector_size() == 512 ==> created(dev, *self, dir_path@, name@, data@),
            dev.spec_sector_size() == 512 && short_name_valid(uppercase_of(name@)) && ({
                &&& dir_target(dev, *self, dir_path@) matches Some(p)
                &&& first_named(dir_listing(dev, *self, p), uppercase_of(name@)) < dir_listing(dev, *self, p).len()
            }) ==> r == Err::<(), Fat32Error>(Fat32Error::AlreadyExists) || (r is Err && r->Err_0 is BlockError),
    {
        let short_name = match Fat32::to_short_name(name) {
            Ok(s) => s,
            Err(e) => {
                return Err(e);
            },
        };
        let parent = match self.dir_cluster(dev, dir_path) {
            Ok(c) => c,
            Err(e) => {
                return Err(e);
            },
        };
        let entries = match self.list_directory(dev, parent) {
            Ok(e) => e,
            Err(e) => {
                return Err(e);
            },
        };
        let wanted = upper_of(name);
        let j = first_match(&entries, &wanted);
        let ghost raws = dir_listing(dev, *self, parent);
        proof {
            if dev.spec_sector_size() == 512 {
                assert forall|m: int| 0 <= m < j implies uppercase_of(shown_name(#[trigger] raws[m])) != wanted@ by {
                    assert(entries@[m].0@ == shown_name(raws[m]));
                }
                if j < entries@.len() {
                    assert(entries@[j as int].0@ == shown_name(raws[j as int]));
                }
                lemma_first_named(raws, wanted@, j as int);
            }
        }
        if j < entries.len() {
            return Err(Fat32Error::AlreadyExists);
        }
        let first_cluster = match self.store_data(dev, data) {
            Ok(c) => c,
            Err(e) => {
                return Err(e);
            },
        };
        let entry = Fat32DirEntry {
            name: short_name,
            attr: ATTR_ARCHIVE,
            nt_res: 0,
            crt_time_tenth: 0,
            crt_time: 0,
            crt_date: 0,
            lst_acc_date: 0,
            first_cluster_hi: (first_cluster >> 16) as u16,
            wrt_time: 0,
            wrt_date: 0,
            first_cluster_lo: first_cluster as u16,
            file_size: data.len() as u32,
        };
        let (cluster, slot) = match self.find_empty_dir_entry(dev, parent) {
            Ok(t) => t,
            Err(e) => {
                return Err(e);
            },
        };
        let res = self.write_dir_entry(dev, cluster, slot, &entry);
        proof {
            lemma_cluster_halves(first_cluster);
            if res is Ok && dev.spec_sector_size() == 512 {
                assert(free_place(dev, *self, parent, cluster, slot as int));
                assert(entry_took(dev, *self, cluster, slot as int, entry));
                assert(stored_at(dev, *self, first_cluster_of(entry), data@));
            }
        }
        res
    }

    /// Rewrites the first slot whose name matches `filename` (ignoring case) along
    /// the chain of the directory at `parent_cluster`: with `delete`, its name is
    /// marked deleted (0xE5); otherwise its first cluster and size are set.
    fn rewrite_slot<D: BlockDevice>(
        &self,
        dev: &D,
        parent_cluster: u32,
        filename: &Vec<char>,
        new_cluster: u32,
        new_size: u32,
        delete: bool,
    ) -> (r: Result<(), Fat32Error>)
        requires
            self.wf(),
        ensures
            r is Ok && dev.spec_sector_size() == 512 ==> exists|ci: int, k: int|
                #[trigger] named_place(dev, *self, parent_cluster, uppercase_of(filename@), ci, k) && slot_rewritten(
                    dev,
                    *self,
                    chain_of(dev, *self, parent_cluster)[ci],
                    k,
                    new_cluster,
                    new_size,
                    delete,
                ),
            r == Err::<(), Fat32Error>(Fat32Error::NotFound) && dev.spec_sector_size() == 512 ==> none_named(
                dev,
                *self,
                parent_cluster,
                uppercase_of(filename@),
            ),
            r is Err ==> r->Err_0 == Fat32Error::NotFound || r->Err_0 is BlockError,
    {
        let size = self.cluster_size();
        let per_cluster = size / 32;
        let wanted = upper_of(string_of_chars(filename).as_str());
        let ghost u = uppercase_of(filename@);
        let clusters = match self.get_cluster_chain(dev, parent_cluster) {
            Ok(c) => c,
            Err(e) => {
                return Err(e);
            },
        };
        let mut ci: usize = 0;
        while ci < clusters.len()
            invariant
                self.wf(),
                ci <= clusters@.len(),
                size == self.spec_cluster_size(),
                per_cluster == size / 32,
                wanted@ == u,
                u == uppercase_of(filename@),
                forall|i: int| 0 <= i < clusters@.len() ==> 2 <= #[trigger] clusters@[i] < FAT_END_MIN,
                dev.spec_sector_size() == 512 ==> clusters@ == chain_of(dev, *self, parent_cluster),
                dev.spec_sector_size() == 512 ==> forall|j: int, m: int|
                    0 <= j < ci && 0 <= m < per_cluster ==> uppercase_of(
                        shown_name(#[trigger] slot_raw(cluster_bytes(dev, *self, clusters@[j]), m)),
                    ) != u,
            decreases clusters@.len() - ci,
        {
            let mut buf = match self.read_cluster(dev, clusters[ci]) {
                Ok(b) => b,
                Err(e) => {
                    return Err(e);
                },
            };
            let mut i: usize = 0;
            while i < per_cluster
                invariant
                    per_cluster == size / 32,
                    buf@.len() == size,
                    ci < clusters@.len(),
                    self.wf(),
                    size == self.spec_cluster_size(),
                    wanted@ == u,
                    u == uppercase_of(filename@),
                    forall|j: int| 0 <= j < clusters@.len() ==> 2 <= #[trigger] clusters@[j] < FAT_END_MIN,
                    dev.spec_sector_size() == 512 ==> buf@ == cluster_bytes(dev, *self, clusters@[ci as int]),
                    dev.spec_sector_size() == 512 ==> clusters@ == chain_of(dev, *self, parent_cluster),
                    dev.spec_sector_size() == 512 ==> forall|j: int, m: int|
                        0 <= j < ci && 0 <= m < per_cluster ==> uppercase_of(
                            shown_name(#[trigger] slot_raw(cluster_bytes(dev, *self, clusters@[j]), m)),
                        ) != u,
                    forall|m: int| 0 <= m < i ==> uppercase_of(shown_name(#[trigger] slot_raw(buf@, m))) != u,
                decreases per_cluster - i,
            {
                proof {
                    assert(i * 32 + 32 <= size) by (nonlinear_arith)
                        requires
                            i < per_cluster,
                            per_cluster == size / 32,
                    ;
                }
                let existing = Fat32DirEntry::parse(buf.as_slice(), i * 32);
                let name = self.parse_short_name(&existing.name);
                let ghost raw = slot_raw(buf@, i as int);
                proof {
                    assert(raw.subrange(0, 11) =~= existing.name@);
                }
                if chars_equal(&upper_of(name.as_str()), &wanted) {
                    let ghost c = clusters@[ci as int];
                    if delete {
                        let ghost before = buf@;
                        buf.set(i * 32, 0xE5);
                        let res = self.write_cluster(dev, clusters[ci], buf.as_slice());
                        proof {
                            if res is Ok && dev.spec_sector_size() == 512 {
                                let st = cluster_start(*self, c);
                                assert(st >= 0) by (nonlinear_arith)
                                    requires
                                        st == (self.data_start_sector + (c - 2) * self.sectors_per_cluster)
                                            * self.bytes_per_sector,
                                        c >= 2,
                                ;
                                assert(padded(buf@, self.spec_cluster_size()) =~= buf@);
                                lemma_took_part(dev, st, buf@, i * 32, 1);
                                assert(buf@.subrange(i * 32, i * 32 + 1) =~= seq![0xE5u8]);
                                assert(named_place(dev, *self, parent_cluster, u, ci as int, i as int));
                            }
                        }
                        return res;
                    } else {
                        let updated = Fat32DirEntry {
                            first_cluster_hi: (new_cluster >> 16) as u16,
                            first_cluster_lo: new_cluster as u16,
                            file_size: new_size,
                            ..existing
                        };
                        let res = self.write_dir_entry(dev, clusters[ci], i, &updated);
                        proof {
                            lemma_cluster_halves(new_cluster);
                            if res is Ok && dev.spec_sector_size() == 512 {
                                assert(named_place(dev, *self, parent_cluster, u, ci as int, i as int));
                                assert(entry_took(dev, *self, c, i as int, updated));
                            }
                        }
                        return res;
                    }
                }
                i = i + 1;
            }
            ci = ci + 1;
        }
        Err(Fat32Error::NotFound)
    }

    /// Replaces the contents of the file at `path` with `data`: its old clusters
    /// are freed, new ones written, and its entry updated.
    pub fn update_file<D: BlockDevice>(&self, dev: &D, path: &str, data: &[u8]) -> (r: Result<(), Fat32Error>)
        requires
            self.wf(),
        ensures
            leading(path@, '/') == path@.len() ==> r == Err::<(), Fat32Error>(Fat32Error::NotAFile),
            r == Err::<(), Fat32Error>(Fat32Error::NotAFile) && dev.spec_sector_size() == 512 && leading(path@, '/')
                < path@.len() ==> ({
                &&& path_lookup(dev, *self, path@) matches Some((c, k))
                &&& dir_listing(dev, *self, c)[k][11] & ATTR_DIRECTORY != 0
            }),
            r is Ok && dev.spec_sector_size() == 512 ==> file_changed(dev, *self, path@, data@, false),
            dev.spec_sector_size() == 512 && leading(path@, '/') < path@.len() && path_lookup(dev, *self, path@) is None
                ==> r == Err::<(), Fat32Error>(Fat32Error::NotFound) || (r is Err && r->Err_0 is BlockError),
    {
        self.change_file(dev, path, data, false)
    }

    /// Frees the clusters of the file at `path`, stores `data` (for `delete`,
    /// none) and rewrites its slot: marked deleted with `delete`, else pointed at
    /// the new data.
    #[verifier::rlimit(80)]
    fn change_file<D: BlockDevice>(&self, dev: &D, path: &str, data: &[u8], delete: bool) -> (r: Result<(), Fat32Error>)
        requires
            self.wf(),
            delete ==> data@.len() == 0,
        ensures
            leading(path@, '/') == path@.len() ==> r == Err::<(), Fat32Error>(Fat32Error::NotAFile),
            r == Err::<(), Fat32Error>(Fat32Error::NotAFile) && dev.spec_sector_size() == 512 && leading(path@, '/')
                < path@.len() ==> ({
                &&& path_lookup(dev, *self, path@) matches Some((c, k))
                &&& dir_listing(dev, *self, c)[k][11] & ATTR_DIRECTORY != 0
            }),
            r is Ok && dev.spec_sector_size() == 512 ==> file_changed(dev, *self, path@, data@, delete),
            dev.spec_sector_size() == 512 && leading(path@, '/') < path@.len() && path_lookup(dev, *self, path@) is None
                ==> r == Err::<(), Fat32Error>(Fat32Error::NotFound) || (r is Err && r->Err_0 is BlockError),
    {
        proof {
            lemma_leading_bound(path@, '/');
        }
        let entry = match self.find_entry(dev, path) {
            Ok(e) => e,
            Err(e) => {
                return Err(e);
            },
        };
        proof {
            if dev.spec_sector_size() == 512 && leading(path@, '/') < path@.len() {
                let (c, k) = path_lookup(dev, *self, path@).unwrap();
                assert(entry_matches(entry, dir_listing(dev, *self, c)[k], 0));
                assert(first_cluster_of(entry) == slot_cluster(dir_listing(dev, *self, c)[k]));
            }
        }
        if entry.attr & ATTR_DIRECTORY != 0 {
            return Err(Fat32Error::NotAFile);
        }
        proof {
            if leading(path@, '/') == path@.len() {
                assert(entry.attr == 0x10u8);
                assert(0x10u8 & 0x10u8 != 0) by (bit_vector);
            }
        }
        let old_cluster = entry.first_cluster();
        if old_cluster >= 2 {
            match self.free_cluster_chain(dev, old_cluster) {
                Ok(()) => {},
                Err(e) => {
                    return Err(e);
                },
            }
        } else {
            assert(chain_of(dev, *self, old_cluster).len() == 0);
        }
        let first_cluster = match self.store_data(dev, data) {
            Ok(c) => c,
            Err(e) => {
                return Err(e);
            },
        };
        let (parent_path, filename) = split_last_slash(path);
        let parent = match self.parent_cluster(dev, &parent_path) {
            Ok(c) => c,
            Err(e) => {
                return Err(e);
            },
        };
        let res = self.rewrite_slot(dev, parent, &filename, first_cluster, data.len() as u32, delete);
        proof {
            if res is Ok && dev.spec_sector_size() == 512 {
                assert(parent_path@ == parent_part(path@));
                assert(filename@ == file_part(path@));
                let (ci, m) = choose|ci: int, m: int|
                    #[trigger] named_place(dev, *self, parent, uppercase_of(filename@), ci, m) && slot_rewritten(
                        dev,
                        *self,
                        chain_of(dev, *self, parent)[ci],
                        m,
                        first_cluster,
                        data@.len() as u32,
                        delete,
                    );
                assert(stored_at(dev, *self, first_cluster, data@));
                assert(named_place(dev, *self, parent, uppercase_of(file_part(path@)), ci, m));
                assert(leading(path@, '/') < path@.len());
                let (c, k) = path_lookup(dev, *self, path@).unwrap();
                assert(0 <= k < dir_listing(dev, *self, c).len());
                assert(dir_listing(dev, *self, c)[k][11] & ATTR_DIRECTORY == 0);
                assert(slot_cluster(dir_listing(dev, *self, c)[k]) == old_cluster);
                assert(forall|i: int|
                    0 <= i < chain_of(dev, *self, old_cluster).len() ==> fat_took(
                        dev,
                        *self,
                        #[trigger] chain_of(dev, *self, old_cluster)[i],
                        FAT_FREE,
                    ));
                assert(lookup_cluster(dev, *self, parent_part(path@)) == Some(parent));
                lemma_file_changed(dev, *self, path@, data@, delete, c, k, parent, first_cluster, ci, m);
                assert(file_changed(dev, *self, path@, data@, delete));
            }
        }
        res
    }

    /// The first cluster of a parent directory path ("/" or empty is the root).
    fn parent_cluster<D: BlockDevice>(&self, dev: &D, parent: &Vec<char>) -> (r: Result<u32, Fat32Error>)
        requires
            self.wf(),
        ensures
            leading(parent@, '/') == parent@.len() ==> r == Ok::<u32, Fat32Error>(self.root_cluster),
            r is Ok && dev.spec_sector_size() == 512 ==> lookup_cluster(dev, *self, parent@) == Some(r->Ok_0),
            r == Err::<u32, Fat32Error>(Fat32Error::NotFound) && dev.spec_sector_size() == 512 ==> lookup_cluster(
                dev,
                *self,
                parent@,
            ) is None,
            r is Err ==> r->Err_0 == Fat32Error::NotFound || r->Err_0 is BlockError,
    {
        if parent.len() == 0 || (parent.len() == 1 && parent[0] == '/') {
            proof {
                if parent@.len() == 1 {
                    assert(parent@.drop_first().len() == 0);
                    assert(leading(parent@.drop_first(), '/') == 0);
                }
            }
            return Ok(self.root_cluster);
        }
        let p = string_of_chars(parent);
        let ps = p.as_str();
        assert(ps@ == parent@);
        proof {
            lemma_leading_bound(parent@, '/');
        }
        match self.find_entry(dev, ps) {
            Ok(e) => {
                proof {
                    if dev.spec_sector_size() == 512 && leading(parent@, '/') < parent@.len() {
                        let (c, k) = path_lookup(dev, *self, parent@).unwrap();
                        assert(entry_matches(e, dir_listing(dev, *self, c)[k], 0));
                        assert(first_cluster_of(e) == slot_cluster(dir_listing(dev, *self, c)[k]));
                        assert(lookup_cluster(dev, *self, parent@) == Some(first_cluster_of(e)));
                    }
                }
                Ok(e.first_cluster())
            },
            Err(e) => Err(e),
        }
    }

    /// Deletes the file at `path`: frees its clusters and marks its slot deleted.
    pub fn delete_file<D: BlockDevice>(&self, dev: &D, path: &str) -> (r: Result<(), Fat32Error>)
        requires
            self.wf(),
        ensures
            leading(path@, '/') == path@.len() ==> r == Err::<(), Fat32Error>(Fat32Error::NotAFile),
            r == Err::<(), Fat32Error>(Fat32Error::NotAFile) && dev.spec_sector_size() == 512 && leading(path@, '/')
                < path@.len() ==> ({
                &&& path_lookup(dev, *self, path@) matches Some((c, k))
                &&& dir_listing(dev, *self, c)[k][11] & ATTR_DIRECTORY != 0
            }),
            r is Ok && dev.spec_sector_size() == 512 ==> file_changed(dev, *self, path@, Seq::empty(), true),
            dev.spec_sector_size() == 512 && leading(path@, '/') < path@.len() && path_lookup(dev, *self, path@) is None
                ==> r == Err::<(), Fat32Error>(Fat32Error::NotFound) || (r is Err && r->Err_0 is BlockError),
    {
        let none: Vec<u8> = Vec::new();
        let res = self.change_file(dev, path, none.as_slice(), true);
        assert(none@ =~= Seq::<u8>::empty());
        res
    }
}

/// Where the last dot of `s` is, or the length when there is none.
pub open spec fn last_dot(s: Seq<char>) -> int
    decreases s.len(),
{
    if s.len() == 0 {
        0
    } else if s.last() == '.' {
        s.len() - 1
    } else if last_dot(s.drop_last()) < s.len() - 1 {
        last_dot(s.drop_last())
    } else {
        s.len() as int
    }
}

/// The last dot lies within the sequence.
pub proof fn lemma_last_dot_bound(s: Seq<char>)
    ensures
        0 <= last_dot(s) <= s.len(),
    decreases s.len(),
{
    if s.len() > 0 {
        lemma_last_dot_bound(s.drop_last());
    }
}

/// Whether a character may stand in the base of an 8.3 name.
pub open spec fn base_char(c: char) -> bool {
    ascii_alnum(c) || c == '_' || c == '-'
}

/// Where the extension of a name starts: after its last dot, or at its end.
pub open spec fn ext_start_of(s: Seq<char>) -> int {
    if last_dot(s) < s.len() {
        last_dot(s) + 1
    } else {
        s.len() as int
    }
}

/// The part of the extension an 8.3 name keeps: its first three characters.
pub open spec fn ext_part(s: Seq<char>) -> Seq<char> {
    let e = s.skip(ext_start_of(s));
    if e.len() < 3 {
        e
    } else {
        e.take(3)
    }
}

/// Whether an upper-cased name has an 8.3 form: 1 to 8 base characters before its
/// last dot, each an ASCII letter, digit, `_` or `-`, and a kept extension of
/// ASCII letters and digits.
pub open spec fn short_name_valid(s: Seq<char>) -> bool {
    &&& 1 <= last_dot(s) <= 8
    &&& forall|i: int| 0 <= i < last_dot(s) ==> base_char(#[trigger] s[i])
    &&& forall|j: int| 0 <= j < ext_part(s).len() ==> ascii_alnum(#[trigger] ext_part(s)[j])
}

/// The 11 bytes of an upper-cased name's 8.3 form: the base, then the kept
/// extension from byte 8, each character as its byte, space padded.
pub open spec fn short_name_bytes(s: Seq<char>) -> Seq<u8> {
    Seq::new(
        11,
        |i: int|
            if i < last_dot(s) {
                s[i] as u8
            } else if i < 8 {
                0x20u8
            } else if i - 8 < ext_part(s).len() {
                ext_part(s)[i - 8] as u8
            } else {
                0x20u8
            },
    )
}

/// Whether a character is an ASCII letter or digit.
pub open spec fn ascii_alnum(c: char) -> bool {
    ('0' <= c <= '9') || ('A' <= c <= 'Z') || ('a' <= c <= 'z')
}

/// The characters of `s` in upper case.
fn upper_of(s: &str) -> (v: Vec<char>)
    ensures
        v@ == uppercase_of(s@),
{
    let u = to_uppercase(s);
    chars_of(u.as_str())
}

/// The first entry whose name, in upper case, is `u`; the count when none is.
fn first_match(entries: &Vec<(String, Fat32DirEntry)>, u: &Vec<char>) -> (j: usize)
    ensures
        j <= entries@.len(),
        forall|m: int| 0 <= m < j ==> uppercase_of((#[trigger] entries@[m]).0@) != u@,
        j < entries@.len() ==> uppercase_of(entries@[j as int].0@) == u@,
{
    let mut j: usize = 0;
    while j < entries.len()
        invariant
            j <= entries@.len(),
            forall|m: int| 0 <= m < j ==> uppercase_of((#[trigger] entries@[m]).0@) != u@,
        decreases entries@.len() - j,
    {
        let name = upper_of(entries[j].0.as_str());
        if chars_equal(&name, u) {
            return j;
        }
        j = j + 1;
    }
    j
}

/// Whether a character is an ASCII letter or digit.
fn is_ascii_alnum(c: char) -> (b: bool)
    ensures
        b == ascii_alnum(c),
{
    ('0' <= c && c <= '9') || ('A' <= c && c <= 'Z') || ('a' <= c && c <= 'z')
}

/// The characters `s[from..to]`.
fn slice_to_vec(s: &[char], from: usize, to: usize) -> (v: Vec<char>)
    requires
        from <= to <= s@.len(),
    ensures
        v@ == s@.subrange(from as int, to as int),
{
    let mut v: Vec<char> = Vec::new();
    let mut i = from;
    while i < to
        invariant
            from <= i <= to,
            to <= s@.len(),
            v@ == s@.subrange(from as int, i as int),
        decreases to - i,
    {
        v.push(s[i]);
        i = i + 1;
        assert(v@ =~= s@.subrange(from as int, i as int));
    }
    v
}

/// Whether two character sequences are equal.
fn chars_equal(a: &Vec<char>, b: &Vec<char>) -> (r: bool)
    ensures
        r == (a@ == b@),
{
    if a.len() != b.len() {
        return false;
    }
    let mut i: usize = 0;
    while i < a.len()
        invariant
            i <= a@.len(),
            a@.len() == b@.len(),
            forall|k: int| 0 <= k < i ==> a@[k] == b@[k],
        decreases a@.len() - i,
    {
        if a[i] != b[i] {
            return false;
        }
        i = i + 1;
    }
    assert(a@ =~= b@);
    true
}

/// Whether `s` ends with `suffix`.
fn ends_with(s: &[char], suffix: &Vec<char>) -> (r: bool)
    ensures
        r == (suffix@.len() <= s@.len() && s@.subrange(s@.len() - suffix@.len(), s@.len() as int) == suffix@),
{
    if suffix.len() > s.len() {
        return false;
    }
    let n = s.len();
    let off = n - suffix.len();
    let mut i: usize = 0;
    while i < suffix.len()
        invariant
            n == s@.len(),
            i <= suffix@.len(),
            off + suffix@.len() == s@.len(),
            forall|k: int| 0 <= k < i ==> s@[off + k] == suffix@[k],
        decreases suffix@.len() - i,
    {
        if s[off + i] != suffix[i] {
            assert(s@.subrange(off as int, s@.len() as int)[i as int] == s@[off + i]);
            return false;
        }
        i = i + 1;
    }
    assert(s@.subrange(off as int, s@.len() as int) =~= suffix@);
    true
}

/// A path split at its last slash: what comes before (or "/" when there is no
/// slash) and what comes after.
fn split_last_slash(path: &str) -> (r: (Vec<char>, Vec<char>))
    ensures
        last_slash(path@) == path@.len() ==> r.0@ == seq!['/'] && r.1@ == path@,
        last_slash(path@) < path@.len() ==> r.0@ == path@.take(last_slash(path@)) && r.1@ == path@.skip(
            last_slash(path@) + 1,
        ),
{
    let c = chars_of(path);
    let ghost s = path@;
    let mut last: usize = c.len();
    let mut i: usize = 0;
    while i < c.len()
        invariant
            i <= c@.len(),
            c@ == s,
            s == path@,
            last == (if last_slash(s.take(i as int)) < i { last_slash(s.take(i as int)) } else { s.len() as int }),
        decreases c@.len() - i,
    {
        proof {
            assert(s.take(i + 1).drop_last() =~= s.take(i as int));
            assert(s.take(i + 1).last() == s[i as int]);
        }
        if c[i] == '/' {
            last = i;
        }
        i = i + 1;
    }
    proof {
        assert(s.take(s.len() as int) =~= s);
        lemma_last_slash_bound(s);
    }
    if last == c.len() {
        let mut root: Vec<char> = Vec::new();
        root.push('/');
        assert(root@ =~= seq!['/']);
        (root, c)
    } else {
        let before = slice_to_vec(c.as_slice(), 0, last);
        let after = slice_to_vec(c.as_slice(), last + 1, c.len());
        assert(before@ =~= s.take(last as int));
        assert(after@ =~= s.skip(last + 1));
        (before, after)
    }
}

/// The string of a character sequence.
fn string_of_chars(v: &Vec<char>) -> (s: String)
    ensures
        s@ == v@,
{
    let mut s = String::new();
    let mut i: usize = 0;
    while i < v.len()
        invariant
            i <= v@.len(),
            s@ == v@.subrange(0, i as int),
        decreases v@.len() - i,
    {
        push_char(&mut s, v[i]);
        i = i + 1;
        assert(s@ =~= v@.subrange(0, i as int));
    }
    assert(v@.subrange(0, v@.len() as int) =~= v@);
    s
}

/// Whether a volume is mounted.
pub fn is_mounted(fs: &Option<Fat32>) -> (b: bool)
    ensures
        b == fs.is_some(),
{
    fs.is_some()
}

/// The mounted volume, if any.
pub fn get_fs(fs: &Option<Fat32>) -> (r: Option<&Fat32>)
    ensures
        r.is_some() == fs.is_some(),
{
    match fs {
        Some(f) => Some(f),
        None => None,
    }
}

/// The entries of the directory at `path` as (name, is a directory, size).
/// The rows `ls` shows for the directory slots `raws`: name, whether a
/// directory, size.
pub open spec fn ls_rows(out: Seq<(String, bool, u32)>, raws: Seq<Seq<u8>>) -> bool {
    &&& out.len() == raws.len()
    &&& forall|i: int| 0 <= i < out.len() ==> {
        &&& (#[trigger] out[i]).0@ == lowercase_of(short_name_chars(raws[i].subrange(0, 11)))
        &&& out[i].1 == (raws[i][11] & ATTR_DIRECTORY != 0)
        &&& out[i].2 == le32_at(raws[i], 28)
    }
}

pub fn ls<D: BlockDevice>(fs: &Option<Fat32>, dev: &D, path: &str) -> (r: Result<Vec<(String, bool, u32)>, Fat32Error>)
    requires
        fs.is_some() ==> fs.unwrap().wf(),
    ensures
        fs.is_none() ==> r == Err::<Vec<(String, bool, u32)>, Fat32Error>(Fat32Error::InvalidFilesystem),
        fs.is_some() && r is Ok && dev.spec_sector_size() == 512 ==> ({
            &&& dir_target(dev, fs.unwrap(), path@) matches Some(c)
            &&& ls_rows(r->Ok_0@, dir_listing(dev, fs.unwrap(), c))
        }),
{
    let f = match fs {
        Some(f) => f,
        None => {
            return Err(Fat32Error::InvalidFilesystem);
        },
    };
    let cluster = match f.dir_cluster(dev, path) {
        Ok(c) => c,
        Err(e) => {
            return Err(e);
        },
    };
    let entries = match f.list_directory(dev, cluster) {
        Ok(e) => e,
        Err(e) => {
            return Err(e);
        },
    };
    let ghost raws = listing(chain_slots(dev, *f, chain_of(dev, *f, cluster)));
    let mut out: Vec<(String, bool, u32)> = Vec::new();
    let mut i: usize = 0;
    while i < entries.len()
        invariant
            i <= entries@.len(),
            out@.len() == i,
            dev.spec_sector_size() == 512 ==> listed_as(entries@, raws),
            dev.spec_sector_size() == 512 ==> ls_rows(out@, raws.take(i as int)),
        decreases entries@.len() - i,
    {
        let e = entries[i].1;
        let name = entries[i].0.clone();
        out.push((name, e.attr & ATTR_DIRECTORY != 0, e.file_size));
        proof {
            if dev.spec_sector_size() == 512 {
                assert(entry_matches(entries@[i as int].1, raws[i as int], 0));
                assert(raws.take(i + 1).take(i as int) =~= raws.take(i as int));
                assert(raws.take(i + 1)[i as int] == raws[i as int]);
                assert forall|k: int| 0 <= k < i + 1 implies #[trigger] raws.take(i + 1)[k] == raws[k] by {}
            }
        }
        i = i + 1;
    }
    proof {
        if dev.spec_sector_size() == 512 {
            assert(raws.take(i as int) =~= raws);
            assert(*f == fs.unwrap());
            assert(ls_rows(out@, dir_listing(dev, fs.unwrap(), cluster)));
        }
    }
    let res: Result<Vec<(String, bool, u32)>, Fat32Error> = Ok(out);
    assert(res is Ok ==> res->Ok_0@ == out@);
    res
}

/// The contents of the file at `path` on the mounted volume.
pub fn read_file<D: BlockDevice>(fs: &Option<Fat32>, dev: &D, path: &str) -> (r: Result<Vec<u8>, Fat32Error>)
    requires
        fs.is_some() ==> fs.unwrap().wf(),
    ensures
        fs.is_none() ==> r == Err::<Vec<u8>, Fat32Error>(Fat32Error::InvalidFilesystem),
        fs.is_some() && leading(path@, '/') == path@.len() ==> r == Err::<Vec<u8>, Fat32Error>(Fat32Error::NotAFile),
        fs.is_some() && r is Ok && dev.spec_sector_size() == 512 ==> ({
            &&& path_lookup(dev, fs.unwrap(), path@) matches Some((c, k))
            &&& 0 <= k < dir_listing(dev, fs.unwrap(), c).len()
            &&& r->Ok_0@ == slot_content(dev, fs.unwrap(), dir_listing(dev, fs.unwrap(), c)[k])
        }),
        fs.is_some() && dev.spec_sector_size() == 512 && leading(path@, '/') < path@.len() && path_lookup(
            dev,
            fs.unwrap(),
            path@,
        ) is None ==> r == Err::<Vec<u8>, Fat32Error>(Fat32Error::NotFound) || (r is Err && r->Err_0 is BlockError),
{
    let f = match fs {
        Some(f) => f,
        None => {
            return Err(Fat32Error::InvalidFilesystem);
        },
    };
    let entry = match f.find_entry(dev, path) {
        Ok(e) => e,
        Err(e) => {
            return Err(e);
        },
    };
    assert(ATTR_DIRECTORY & ATTR_DIRECTORY != 0) by (bit_vector);
    let res = f.read_file(dev, &entry);
    proof {
        lemma_leading_bound(path@, '/');
        if res is Ok && dev.spec_sector_size() == 512 {
            assert(*f == fs.unwrap());
            assert(leading(path@, '/') < path@.len());
            let (c, k) = path_lookup(dev, *f, path@).unwrap();
            assert(entry_matches(entry, dir_listing(dev, *f, c)[k], 0));
            assert(first_cluster_of(entry) == slot_cluster(dir_listing(dev, *f, c)[k]));
        }
    }
    res
}

/// Writes `data` as the file at `path`: updates it when it exists, creates it in
/// its parent directory when it is not found.
pub fn write_file<D: BlockDevice>(fs: &Option<Fat32>, dev: &D, path: &str, data: &[u8]) -> (r: Result<(), Fat32Error>)
    requires
        fs.is_some() ==> fs.unwrap().wf(),
    ensures
        fs.is_none() ==> r == Err::<(), Fat32Error>(Fat32Error::InvalidFilesystem),
        fs.is_some() && leading(path@, '/') == path@.len() ==> r == Err::<(), Fat32Error>(Fat32Error::NotAFile),
        fs.is_some() && r is Ok && dev.spec_sector_size() == 512 ==> file_written(dev, fs.unwrap(), path@, data@),
{
    let f = match fs {
        Some(f) => f,
        None => {
            return Err(Fat32Error::InvalidFilesystem);
        },
    };
    proof {
        lemma_leading_bound(path@, '/');
    }
    match f.find_entry(dev, path) {
        Ok(_) => {
            let res = f.update_file(dev, path, data);
            proof {
                reveal(file_written);
            }
            res
        },
        Err(Fat32Error::NotFound) => {
            let (parent, name) = split_last_slash(path);
            let p = string_of_chars(&parent);
            let n = string_of_chars(&name);
            let res = f.create_file(dev, p.as_str(), n.as_str(), data);
            proof {
                reveal(file_written);
                if res is Ok && dev.spec_sector_size() == 512 {
                    assert(p@ == parent_part(path@));
                    assert(n@ == file_part(path@));
                    assert(path_lookup(dev, *f, path@) is None);
                }
            }
            res
        },
        Err(e) => Err(e),
    }
}

/// Deletes the file at `path` on the mounted volume.
pub fn delete_file<D: BlockDevice>(fs: &Option<Fat32>, dev: &D, path: &str) -> (r: Result<(), Fat32Error>)
    requires
        fs.is_some() ==> fs.unwrap().wf(),
    ensures
        fs.is_none() ==> r == Err::<(), Fat32Error>(Fat32Error::InvalidFilesystem),
        fs.is_some() && leading(path@, '/') == path@.len() ==> r == Err::<(), Fat32Error>(Fat32Error::NotAFile),
        fs.is_some() && r is Ok && dev.spec_sector_size() == 512 ==> file_changed(
            dev,
            fs.unwrap(),
            path@,
            Seq::empty(),
            true,
        ),
{
    match fs {
        Some(f) => f.delete_file(dev, path),
        None => Err(Fat32Error::InvalidFilesystem),
    }
}

/// Appends `data` to the file at `path` (a missing file counts as empty): the
/// combined contents are written back; with nothing at all an empty file is created.
pub fn append_file<D: BlockDevice>(fs: &Option<Fat32>, dev: &D, path: &str, data: &[u8]) -> (r: Result<(), Fat32Error>)
    requires
        fs.is_some() ==> fs.unwrap().wf(),
    ensures
        fs.is_none() ==> r == Err::<(), Fat32Error>(Fat32Error::InvalidFilesystem),
        fs.is_some() && r is Ok && dev.spec_sector_size() == 512 ==> exists|old: Seq<u8>|
            #![trigger old + data@]
            (leading(path@, '/') < path@.len() && path_lookup(dev, fs.unwrap(), path@) is None ==> old.len() == 0) && (
            file_written(dev, fs.unwrap(), path@, old + data@) || created(
                dev,
                fs.unwrap(),
                parent_part(path@),
                file_part(path@),
                old + data@,
            )),
{
    let f = match fs {
        Some(f) => f,
        None => {
            return Err(Fat32Error::InvalidFilesystem);
        },
    };
    let existing = match f.find_entry(dev, path) {
        Ok(entry) => match f.read_file(dev, &entry) {
            Ok(d) => d,
            Err(e) => {
                return Err(e);
            },
        },
        Err(Fat32Error::NotFound) => Vec::new(),
        Err(e) => {
            return Err(e);
        },
    };
    let ghost old = existing@;
    assert(leading(path@, '/') < path@.len() && path_lookup(dev, *f, path@) is None && dev.spec_sector_size() == 512
        ==> old.len() == 0);
    let mut combined = existing;
    let mut i: usize = 0;
    while i < data.len()
        invariant
            i <= data@.len(),
            combined@ == old + data@.take(i as int),
        decreases data@.len() - i,
    {
        combined.push(data[i]);
        i = i + 1;
        assert(combined@ =~= old + data@.take(i as int));
    }
    assert(data@.take(data@.len() as int) =~= data@);
    if combined.len() == 0 {
        let (parent, name) = split_last_slash(path);
        let p = string_of_chars(&parent);
        let n = string_of_chars(&name);
        let empty: Vec<u8> = Vec::new();
        let res = f.create_file(dev, p.as_str(), n.as_str(), empty.as_slice());
        proof {
            assert(empty@ =~= old + data@);
            if res is Ok && dev.spec_sector_size() == 512 {
                assert(p@ == parent_part(path@));
                assert(n@ == file_part(path@));
                assert(created(dev, *f, parent_part(path@), file_part(path@), old + data@));
            }
        }
        res
    } else {
        let res = write_file(fs, dev, path, combined.as_slice());
        proof {
            if res is Ok && dev.spec_sector_size() == 512 {
                assert(file_written(dev, *f, path@, old + data@));
            }
        }
        res
    }
}

} // verus!
