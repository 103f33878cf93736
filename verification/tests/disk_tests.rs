use std::cell::RefCell;

use kernel::drivers::block::{read_bytes, write_bytes, BlockDevice, BlockError};
use kernel::fs::ext4::{self, parse_dir_block, Ext4Fs};
use kernel::fs::fat32::{self, Fat32, Fat32Error};
use kernel::fs::{FsError, InodeType};

/// A disk held in memory, 512-byte sectors.
struct RamDisk {
    data: RefCell<Vec<u8>>,
}

impl RamDisk {
    fn new(bytes: Vec<u8>) -> Self {
        RamDisk { data: RefCell::new(bytes) }
    }
}

// The trait's specification functions exist for the verifier only; compiled
// code never calls them.
impl BlockDevice for RamDisk {
    fn spec_sector_count(&self) -> u64 {
        unreachable!()
    }

    fn spec_sector_size(&self) -> u32 {
        unreachable!()
    }

    fn spec_read_only(&self) -> bool {
        unreachable!()
    }

    fn sector_data(&self, _sector: u64) -> vstd::seq::Seq<u8> {
        unreachable!()
    }

    fn wrote(&self, _sector: u64, _data: vstd::seq::Seq<u8>) -> bool {
        unreachable!()
    }

    fn sector_count(&self) -> u64 {
        (self.data.borrow().len() / 512) as u64
    }

    fn sector_size(&self) -> u32 {
        512
    }

    fn is_read_only(&self) -> bool {
        false
    }

    fn read_sector(&self, sector: u64, buf: &mut [u8]) -> Result<(), BlockError> {
        let data = self.data.borrow();
        let start = sector as usize * 512;
        if start + 512 > data.len() {
            return Err(BlockError::InvalidSector);
        }
        if buf.len() < 512 {
            return Err(BlockError::BufferTooSmall);
        }
        buf[..512].copy_from_slice(&data[start..start + 512]);
        Ok(())
    }

    fn write_sector(&self, sector: u64, src: &[u8]) -> Result<(), BlockError> {
        let mut data = self.data.borrow_mut();
        let start = sector as usize * 512;
        if start + 512 > data.len() {
            return Err(BlockError::InvalidSector);
        }
        if src.len() < 512 {
            return Err(BlockError::BufferTooSmall);
        }
        data[start..start + 512].copy_from_slice(&src[..512]);
        Ok(())
    }
}

fn put16(img: &mut [u8], at: usize, v: u16) {
    img[at..at + 2].copy_from_slice(&v.to_le_bytes());
}

fn put32(img: &mut [u8], at: usize, v: u32) {
    img[at..at + 4].copy_from_slice(&v.to_le_bytes());
}

fn dir_entry(img: &mut [u8], at: usize, inode: u32, rec_len: u16, name: &str, file_type: u8) {
    put32(img, at, inode);
    put16(img, at + 4, rec_len);
    img[at + 6] = name.len() as u8;
    img[at + 7] = file_type;
    img[at + 8..at + 8 + name.len()].copy_from_slice(name.as_bytes());
}

fn extent_inode(img: &mut [u8], at: usize, mode: u16, size: u32, block: u32) {
    put16(img, at, mode);
    put16(img, at + 2, 1000);
    put32(img, at + 4, size);
    put16(img, at + 24, 100);
    put16(img, at + 26, 1);
    put32(img, at + 32, 0x80000);
    // extent header: magic, one entry, room for four, depth 0
    put16(img, at + 40, 0xF30A);
    put16(img, at + 42, 1);
    put16(img, at + 44, 4);
    put16(img, at + 46, 0);
    // one extent: logical 0, one block, at `block`
    put32(img, at + 52, 0);
    put16(img, at + 56, 1);
    put16(img, at + 58, 0);
    put32(img, at + 60, block);
}

/// A 1 KiB-block ext4 image: root directory in block 20 holding `hello.txt`
/// (inode 12) whose six bytes are in block 21.
fn ext4_image() -> Vec<u8> {
    let mut img = vec![0u8; 64 * 1024];
    let sb = 1024;
    put32(&mut img, sb, 16);
    put32(&mut img, sb + 4, 64);
    put32(&mut img, sb + 20, 1);
    put32(&mut img, sb + 24, 0);
    put32(&mut img, sb + 32, 8192);
    put32(&mut img, sb + 40, 16);
    put16(&mut img, sb + 56, 0xEF53);
    put32(&mut img, sb + 76, 1);
    put16(&mut img, sb + 88, 128);
    put32(&mut img, sb + 96, 0x40);
    img[sb + 120..sb + 127].copy_from_slice(b"testvol");
    // group descriptor 0 in block 2: inode table at block 5
    put32(&mut img, 2048 + 8, 5);
    extent_inode(&mut img, 5 * 1024 + 128, 0x41ED, 1024, 20);
    extent_inode(&mut img, 5 * 1024 + 11 * 128, 0x81A4, 6, 21);
    let d = 20 * 1024;
    dir_entry(&mut img, d, 2, 12, ".", 2);
    dir_entry(&mut img, d + 12, 2, 12, "..", 2);
    dir_entry(&mut img, d + 24, 12, 1000, "hello.txt", 1);
    img[21 * 1024..21 * 1024 + 6].copy_from_slice(b"hello\n");
    img
}

#[test]
fn ext4_mount_list_read() {
    let disk = RamDisk::new(ext4_image());
    let fs = Ext4Fs::mount(&disk).unwrap();
    assert_eq!(fs.block_size, 1024);
    let (blocks, _free, bsize, name) = fs.info();
    assert_eq!(blocks, 64);
    assert_eq!(bsize, 1024);
    assert_eq!(name, "testvol");
    let mounted = Some(fs);
    assert!(ext4::is_mounted(&mounted));
    let entries = ext4::list_dir(&mounted, &disk, "/").unwrap();
    let names: Vec<&str> = entries.iter().map(|e| e.name.as_str()).collect();
    assert_eq!(names, vec![".", "..", "hello.txt"]);
    assert_eq!(entries[2].inode, 12);
    assert_eq!(entries[2].inode_type, InodeType::File);
    assert_eq!(ext4::read_file(&mounted, &disk, "/hello.txt").unwrap(), b"hello\n".to_vec());
    let st = ext4::stat(&mounted, &disk, "/hello.txt").unwrap();
    assert_eq!(st.size, 6);
    assert_eq!(st.permissions, 0o644);
    assert_eq!(st.uid, 1000);
    assert_eq!(st.gid, 100);
    assert_eq!(ext4::stat(&mounted, &disk, "/").unwrap().inode_type, InodeType::Directory);
    assert_eq!(ext4::read_file(&mounted, &disk, "/missing"), Err(FsError::NotFound));
    assert_eq!(ext4::list_dir(&mounted, &disk, "/hello.txt").err(), Some(FsError::NotADirectory));
    assert_eq!(ext4::info(&mounted).unwrap().3, "testvol");
}

#[test]
fn ext4_refuses_other_filesystems() {
    let disk = RamDisk::new(vec![0u8; 8192]);
    assert_eq!(Ext4Fs::mount(&disk).err(), Some(FsError::InvalidFilesystem));
    let none: Option<Ext4Fs> = None;
    assert!(!ext4::is_mounted(&none));
    assert_eq!(ext4::list_dir(&none, &disk, "/").err(), Some(FsError::NoFilesystem));
    assert_eq!(ext4::info(&none), None);
    // too small to hold a superblock
    let tiny = RamDisk::new(vec![0u8; 1024]);
    assert_eq!(Ext4Fs::mount(&tiny).err(), Some(FsError::IoError));
}

#[test]
fn ext4_dir_block_parsing() {
    let mut block = vec![0u8; 64];
    dir_entry(&mut block, 0, 7, 16, "a", 2);
    // a deleted entry (inode 0) is skipped
    dir_entry(&mut block, 16, 0, 16, "gone", 1);
    dir_entry(&mut block, 32, 9, 32, "link", 7);
    let e = parse_dir_block(&block, 64);
    assert_eq!(e.len(), 2);
    assert_eq!(e[0].name, "a");
    assert_eq!(e[0].inode_type, InodeType::Directory);
    assert_eq!(e[1].name, "link");
    assert_eq!(e[1].inode_type, InodeType::Symlink);
    // invalid UTF-8 in a name is replaced, not refused
    let mut bad = vec![0u8; 16];
    dir_entry(&mut bad, 0, 3, 16, "x", 1);
    bad[8] = 0xff;
    assert_eq!(parse_dir_block(&bad, 16)[0].name, "\u{fffd}");
}

/// A FAT32 image: 512-byte sectors, one sector per cluster, four reserved
/// sectors, one one-sector FAT, 64 data clusters; the root directory (cluster 2)
/// holds HELLO.TXT (cluster 3, six bytes).
fn fat32_image() -> Vec<u8> {
    let mut img = vec![0u8; 70 * 512];
    put16(&mut img, 11, 512);
    img[13] = 1;
    put16(&mut img, 14, 4);
    img[16] = 1;
    img[21] = 0xF8;
    put32(&mut img, 32, 69);
    put32(&mut img, 36, 1);
    put32(&mut img, 44, 2);
    img[66] = 0x29;
    img[71..82].copy_from_slice(b"TESTVOL    ");
    let fat = 4 * 512;
    put32(&mut img, fat, 0x0FFF_FFF8);
    put32(&mut img, fat + 4, 0x0FFF_FFFF);
    put32(&mut img, fat + 8, 0x0FFF_FFFF);
    put32(&mut img, fat + 12, 0x0FFF_FFFF);
    let root = 5 * 512;
    img[root..root + 11].copy_from_slice(b"HELLO   TXT");
    img[root + 11] = 0x20;
    put16(&mut img, root + 26, 3);
    put32(&mut img, root + 28, 6);
    img[6 * 512..6 * 512 + 6].copy_from_slice(b"hello\n");
    img
}

#[test]
fn fat32_mount_list_read() {
    let disk = RamDisk::new(fat32_image());
    let fs = Fat32::mount(&disk).unwrap();
    assert_eq!(fs.cluster_size(), 512);
    assert_eq!(fs.cluster_to_sector(3), 6);
    assert_eq!(fs.volume_label, "TESTVOL");
    let mounted = Some(fs);
    assert!(fat32::is_mounted(&mounted));
    let listing = fat32::ls(&mounted, &disk, "/").unwrap();
    assert_eq!(listing, vec![(String::from("hello.txt"), false, 6)]);
    assert_eq!(fat32::read_file(&mounted, &disk, "/hello.txt").unwrap(), b"hello\n".to_vec());
    assert_eq!(fat32::read_file(&mounted, &disk, "/nope.txt"), Err(Fat32Error::NotFound));
    assert_eq!(fat32::ls(&mounted, &disk, "/hello.txt"), Err(Fat32Error::NotADirectory));
}

#[test]
fn fat32_write_append_delete() {
    let disk = RamDisk::new(fat32_image());
    let mounted = Some(Fat32::mount(&disk).unwrap());
    assert_eq!(fat32::write_file(&mounted, &disk, "/new.txt", b"abc"), Ok(()));
    assert_eq!(fat32::read_file(&mounted, &disk, "/new.txt").unwrap(), b"abc".to_vec());
    assert_eq!(fat32::append_file(&mounted, &disk, "/new.txt", b"def"), Ok(()));
    assert_eq!(fat32::read_file(&mounted, &disk, "/new.txt").unwrap(), b"abcdef".to_vec());
    assert_eq!(fat32::write_file(&mounted, &disk, "/hello.txt", b"bye"), Ok(()));
    assert_eq!(fat32::read_file(&mounted, &disk, "/hello.txt").unwrap(), b"bye".to_vec());
    assert_eq!(fat32::delete_file(&mounted, &disk, "/new.txt"), Ok(()));
    assert_eq!(fat32::read_file(&mounted, &disk, "/new.txt"), Err(Fat32Error::NotFound));
    assert_eq!(fat32::ls(&mounted, &disk, "/").unwrap().len(), 1);
}

#[test]
fn fat32_short_names_and_refusals() {
    assert_eq!(Fat32::to_short_name("readme.md"), Ok(*b"README  MD "));
    assert_eq!(Fat32::to_short_name("noext"), Ok(*b"NOEXT      "));
    assert!(Fat32::to_short_name("muchtoolongname.txt").is_err());
    let disk = RamDisk::new(vec![0u8; 4096]);
    assert_eq!(Fat32::mount(&disk).err(), Some(Fat32Error::InvalidFilesystem));
    let none: Option<Fat32> = None;
    assert!(!fat32::is_mounted(&none));
    assert!(fat32::get_fs(&none).is_none());
}

#[test]
fn byte_reads_across_sectors() {
    let mut img = vec![0u8; 2048];
    for (i, b) in img.iter_mut().enumerate() {
        *b = (i % 251) as u8;
    }
    let disk = RamDisk::new(img);
    let mut buf = [0u8; 600];
    assert_eq!(read_bytes(&disk, 500, &mut buf), Ok(()));
    for (k, b) in buf.iter().enumerate() {
        assert_eq!(*b, ((500 + k) % 251) as u8);
    }
    assert_eq!(write_bytes(&disk, 510, b"XYZ"), Ok(()));
    let mut back = [0u8; 3];
    assert_eq!(read_bytes(&disk, 510, &mut back), Ok(()));
    assert_eq!(&back, b"XYZ");
    let mut far = [0u8; 4];
    assert_eq!(read_bytes(&disk, 2046, &mut far), Err(BlockError::InvalidSector));
}

#[test]
fn fat32_short_name_shapes() {
    assert_eq!(Fat32::short_name_from_upper("FILE.TEXT"), Ok(*b"FILE    TEX"));
    assert_eq!(Fat32::short_name_from_upper("A_B-C"), Ok(*b"A_B-C      "));
    assert_eq!(Fat32::short_name_from_upper(".HIDDEN"), Err(Fat32Error::InvalidFilename));
    assert_eq!(Fat32::short_name_from_upper("A.B.C"), Err(Fat32Error::InvalidFilename));
    assert_eq!(Fat32::short_name_from_upper("NAME.T_T"), Err(Fat32Error::InvalidFilename));
    assert_eq!(Fat32::to_short_name("Mixed.Txt"), Ok(*b"MIXED   TXT"));
}

#[test]
fn fat32_names_taken_and_roots_refused() {
    let disk = RamDisk::new(fat32_image());
    let fs = Fat32::mount(&disk).unwrap();
    assert_eq!(fs.create_file(&disk, "/", "HELLO.TXT", b"x"), Err(Fat32Error::AlreadyExists));
    assert_eq!(fs.create_file(&disk, "/", "bad name", b"x"), Err(Fat32Error::InvalidFilename));
    assert_eq!(fs.create_file(&disk, "/hello.txt", "a.txt", b"x"), Err(Fat32Error::NotADirectory));
    assert_eq!(fs.update_file(&disk, "/", b"x"), Err(Fat32Error::NotAFile));
    assert_eq!(fs.delete_file(&disk, "//"), Err(Fat32Error::NotAFile));
    assert_eq!(fs.delete_file(&disk, "/missing.txt"), Err(Fat32Error::NotFound));
    assert_eq!(fs.create_file(&disk, "", "two.txt", b"0123456789"), Ok(()));
    let mounted = Some(fs);
    assert_eq!(fat32::read_file(&mounted, &disk, "TWO.TXT").unwrap(), b"0123456789".to_vec());
    assert_eq!(fat32::write_file(&mounted, &disk, "/", b"x"), Err(Fat32Error::NotAFile));
}

#[test]
fn empty_byte_transfers_succeed() {
    let disk = RamDisk::new(vec![0u8; 512]);
    let mut none: [u8; 0] = [];
    assert_eq!(read_bytes(&disk, 1 << 40, &mut none), Ok(()));
    assert_eq!(write_bytes(&disk, 1 << 40, &[]), Ok(()));
}

#[test]
fn boot_sector_and_superblock_checked_alone() {
    let img = fat32_image();
    let fs = Fat32::from_boot_sector(&img[0..512]).unwrap();
    assert_eq!(fs.volume_label, "TESTVOL");
    assert_eq!(fs.cluster_size(), 512);
    let mut bad = img[0..512].to_vec();
    bad[66] = 0x28;
    assert_eq!(Fat32::from_boot_sector(&bad).err(), Some(Fat32Error::InvalidFilesystem));
    let mut no_spc = img[0..512].to_vec();
    no_spc[13] = 0;
    assert_eq!(Fat32::from_boot_sector(&no_spc).err(), Some(Fat32Error::InvalidFilesystem));
    let e = ext4_image();
    let sb = &e[1024..2048];
    let x = Ext4Fs::from_superblock(sb).unwrap();
    assert_eq!(x.block_size, 1024 << x.superblock.log_block_size);
    let mut wrong = sb.to_vec();
    wrong[56] = 0;
    assert_eq!(Ext4Fs::from_superblock(&wrong).err(), Some(FsError::InvalidFilesystem));
    let mut huge = sb.to_vec();
    huge[24..28].copy_from_slice(&40u32.to_le_bytes());
    assert_eq!(Ext4Fs::from_superblock(&huge).err(), Some(FsError::InvalidFilesystem));
}
