use kernel::fs::permissions::{
    apply_umask, can_chmod, can_chown, check_access, check_execute, check_read, check_write,
    default_dir_mode, default_file_mode, format_permissions, parse_mode, AccessMode, Credentials,
};
use kernel::fs::path::{components, is_absolute, split};
use kernel::fs::ramfs::RamFs;
use kernel::fs::vfs;
use kernel::fs::{FsError, InodeType, OpenFlags, SeekFrom, Stat};

fn file_stat(perm: u16, uid: u32, gid: u32) -> Stat {
    Stat { inode: 5, inode_type: InodeType::File, size: 0, permissions: perm, uid, gid }
}

fn user(uid: u32, gid: u32, groups: Vec<u32>) -> Credentials {
    Credentials { uid, gid, groups, has_dac_override: false, has_chown: false }
}

#[test]
fn ramfs_create_write_read() {
    let mut fs = RamFs::new();
    let root = fs.root();
    assert_eq!(fs.lookup("/"), Ok(root));
    let dir = fs.create_dir("/", "docs", 0, 0).unwrap();
    assert_eq!(fs.lookup("/docs"), Ok(dir));
    let f = fs.create_file("/docs", "a.txt", 1000, 1000).unwrap();
    assert_eq!(fs.create_file("/docs", "a.txt", 0, 0), Err(FsError::AlreadyExists));
    assert_eq!(fs.create_file("/nope", "b", 0, 0), Err(FsError::NotFound));
    assert_eq!(fs.write(f, 0, b"hello"), Ok(5));
    // write past the end fills the gap with zeros
    assert_eq!(fs.write(f, 7, b"!"), Ok(1));
    let mut buf = [0xAAu8; 16];
    assert_eq!(fs.read(f, 0, &mut buf), Ok(8));
    assert_eq!(&buf[..8], b"hello\0\0!");
    assert_eq!(fs.read(f, 100, &mut buf), Ok(0));
    let st = fs.stat("/docs/a.txt").unwrap();
    assert_eq!(st.size, 8);
    assert_eq!(st.uid, 1000);
    assert_eq!(st.inode_type, InodeType::File);
    assert_eq!(fs.truncate(f, 2), Ok(()));
    assert_eq!(fs.stat("/docs/a.txt").unwrap().size, 2);
    assert_eq!(fs.read(dir, 0, &mut buf), Err(FsError::IsADirectory));
    assert_eq!(fs.write(9999, 0, b"x"), Err(FsError::NotFound));
}

#[test]
fn ramfs_remove_rules() {
    let mut fs = RamFs::new();
    fs.create_dir("/", "d", 0, 0).unwrap();
    fs.create_file("/d", "f", 0, 0).unwrap();
    assert_eq!(fs.rmdir("/d"), Err(FsError::NotEmpty));
    assert_eq!(fs.unlink("/d"), Err(FsError::IsADirectory));
    assert_eq!(fs.rmdir("/d/f"), Err(FsError::NotADirectory));
    assert_eq!(fs.unlink("/d/f"), Ok(()));
    assert_eq!(fs.lookup("/d/f"), Err(FsError::NotFound));
    assert_eq!(fs.rmdir("/d"), Ok(()));
    assert_eq!(fs.remove("/"), Err(FsError::PermissionDenied));
    let entries = fs.readdir(fs.root()).unwrap();
    assert_eq!(entries.len(), 0);
}

#[test]
fn ramfs_readdir_lists_children() {
    let mut fs = RamFs::new();
    fs.create_file("/", "b", 0, 0).unwrap();
    fs.create_dir("/", "a", 0, 0).unwrap();
    let entries = fs.readdir(fs.root()).unwrap();
    let mut names: Vec<String> = entries.iter().map(|e| e.name.clone()).collect();
    names.sort();
    assert_eq!(names, vec!["a".to_string(), "b".to_string()]);
}

#[test]
fn vfs_open_write_seek_read() {
    let mut v = vfs::init();
    assert!(vfs::stat(&v, "/tmp").is_ok());
    assert_eq!(vfs::open(&mut v, "/tmp/x", OpenFlags::read()), Err(FsError::NotFound));
    let fd = vfs::open(&mut v, "/tmp/x", OpenFlags::write().union(OpenFlags::create())).unwrap();
    assert_eq!(fd, 3);
    assert_eq!(vfs::write(&mut v, fd, b"abcdef"), Ok(6));
    assert_eq!(vfs::seek(&mut v, fd, SeekFrom::Start(2)), Ok(2));
    assert_eq!(vfs::seek(&mut v, fd, SeekFrom::Current(1)), Ok(3));
    assert_eq!(vfs::seek(&mut v, fd, SeekFrom::End(-1)), Ok(5));
    assert_eq!(vfs::seek(&mut v, fd, SeekFrom::Current(-10)), Ok(0));
    // no read flag on this descriptor
    let mut buf = [0u8; 4];
    assert_eq!(vfs::read(&mut v, fd, &mut buf), Err(FsError::PermissionDenied));
    assert_eq!(vfs::close(&mut v, fd), Ok(()));
    assert_eq!(vfs::close(&mut v, fd), Err(FsError::InvalidFd));
    let fd = vfs::open(&mut v, "/tmp/x", OpenFlags::read()).unwrap();
    assert_eq!(vfs::read(&mut v, fd, &mut buf), Ok(4));
    assert_eq!(&buf, b"abcd");
    assert_eq!(vfs::write(&mut v, fd, b"z"), Err(FsError::PermissionDenied));
    assert_eq!(vfs::open(&mut v, "/tmp", OpenFlags::read()), Err(FsError::IsADirectory));
}

#[test]
fn vfs_append_and_truncate() {
    let mut v = vfs::init();
    assert_eq!(vfs::write_string(&mut v, "/etc/motd", "hi"), Ok(()));
    let fd = vfs::open(&mut v, "/etc/motd", OpenFlags::write().union(OpenFlags::append())).unwrap();
    assert_eq!(vfs::write(&mut v, fd, b"!!"), Ok(2));
    assert_eq!(vfs::read_to_string(&v, "/etc/motd"), Ok(String::from("hi!!")));
    let _ = vfs::open(&mut v, "/etc/motd", OpenFlags::write().union(OpenFlags::trunc())).unwrap();
    assert_eq!(vfs::read_to_string(&v, "/etc/motd"), Ok(String::new()));
    assert_eq!(v.open_count(), 2);
}

#[test]
fn vfs_directories_and_cwd() {
    let mut v = vfs::init();
    assert_eq!(vfs::getcwd(&v), Ok(String::from("/")));
    assert_eq!(vfs::mkdir(&mut v, "/home/user"), Ok(()));
    assert_eq!(vfs::mkdir(&mut v, "/home/user"), Err(FsError::AlreadyExists));
    assert_eq!(vfs::chdir(&mut v, "/home/user"), Ok(()));
    assert_eq!(vfs::getcwd(&v), Ok(String::from("/home/user")));
    assert_eq!(vfs::touch(&mut v, "notes"), Ok(()));
    assert!(vfs::stat(&v, "/home/user/notes").is_ok());
    assert_eq!(vfs::chdir(&mut v, "notes"), Err(FsError::NotADirectory));
    assert_eq!(vfs::chdir(&mut v, ".."), Ok(()));
    assert_eq!(vfs::getcwd(&v), Ok(String::from("/home")));
    assert_eq!(vfs::readdir(&v, "/home").unwrap().len(), 1);
    assert_eq!(vfs::rmdir(&mut v, "/home/user"), Err(FsError::NotEmpty));
    assert_eq!(vfs::unlink(&mut v, "/home/user/notes"), Ok(()));
    assert_eq!(vfs::rmdir(&mut v, "/home/user"), Ok(()));
    assert_eq!(vfs::read_to_string(&v, "/nothing"), Err(FsError::NotFound));
}

#[test]
fn permission_checks() {
    let st = file_stat(0o640, 100, 50);
    let owner = user(100, 1, vec![]);
    let member = user(7, 9, vec![50]);
    let other = user(7, 9, vec![]);
    assert_eq!(check_read(&st, &owner), Ok(()));
    assert_eq!(check_write(&st, &owner), Ok(()));
    assert_eq!(check_execute(&st, &owner), Err(FsError::PermissionDenied));
    assert_eq!(check_read(&st, &member), Ok(()));
    assert_eq!(check_write(&st, &member), Err(FsError::PermissionDenied));
    assert_eq!(check_read(&st, &other), Err(FsError::PermissionDenied));
    assert_eq!(check_access(&st, AccessMode::Exists, &other), Ok(()));
    let root = Credentials::kernel();
    assert_eq!(check_write(&st, &root), Ok(()));
    // root executes only what someone may execute
    assert_eq!(check_execute(&st, &root), Err(FsError::PermissionDenied));
    assert_eq!(check_execute(&file_stat(0o001, 1, 1), &root), Ok(()));
    assert!(can_chown(None));
    assert!(!can_chown(Some(&owner)));
    assert!(can_chmod(&st, Some(&owner)));
    assert!(!can_chmod(&st, Some(&other)));
}

#[test]
fn mode_strings() {
    assert_eq!(format_permissions(0o755), "rwxr-xr-x");
    assert_eq!(format_permissions(0o640), "rw-r-----");
    assert_eq!(parse_mode("755"), Some(0o755));
    assert_eq!(parse_mode("+644"), Some(0o644));
    assert_eq!(parse_mode("8"), None);
    assert_eq!(parse_mode(""), None);
    assert_eq!(apply_umask(0o777, 0o027), 0o750);
    assert_eq!(default_file_mode(), 0o644);
    assert_eq!(default_dir_mode(), 0o755);
}

#[test]
fn path_helpers() {
    assert!(is_absolute("/a"));
    assert!(!is_absolute("a"));
    assert_eq!(split("/home/user/f"), (String::from("/home/user"), String::from("f")));
    assert_eq!(components("/a//b/c"), vec!["a", "b", "c"]);
    assert_eq!(FsError::NotFound.message(), "No such file or directory");
    assert!(OpenFlags::from_bits_truncate(0xff).contains(0b11111));
}

#[test]
fn ramfs_write_then_read_back() {
    let mut fs = RamFs::new();
    let f = fs.create_file("/", "log", 0, 0).unwrap();
    assert_eq!(fs.write(f, 3, b"hello"), Ok(5));
    let mut buf = [0u8; 5];
    assert_eq!(fs.read(f, 3, &mut buf), Ok(5));
    assert_eq!(&buf, b"hello");
    let mut gap = [0xAAu8; 3];
    assert_eq!(fs.read(f, 0, &mut gap), Ok(3));
    assert_eq!(gap, [0, 0, 0]);
    assert_eq!(fs.read(f, 8, &mut buf), Ok(0));
    assert_eq!(fs.stat("/log").unwrap().size, 8);
}

#[test]
fn ramfs_get_mut_changes_in_place() {
    let mut fs = RamFs::new();
    let f = fs.create_file("/", "x", 0, 0).unwrap();
    fs.get_mut(f).unwrap().permissions = 0o600;
    assert_eq!(fs.stat("/x").unwrap().permissions, 0o600);
    assert!(fs.get_mut(4242).is_err());
}

#[test]
fn vfs_string_written_reads_back() {
    let mut v = vfs::init();
    assert_eq!(vfs::write_string(&mut v, "/note", "first"), Ok(()));
    assert_eq!(vfs::write_string(&mut v, "/note", "gr\u{fc}\u{df}e, world"), Ok(()));
    assert_eq!(vfs::read_to_string(&v, "/note"), Ok(String::from("gr\u{fc}\u{df}e, world")));
    assert_eq!(vfs::stat(&v, "/note").unwrap().size, "gr\u{fc}\u{df}e, world".len());
}

#[test]
fn ramfs_created_is_found_and_removed_is_not() {
    let mut fs = RamFs::new();
    let d = fs.create_dir("/", "docs", 0, 0).unwrap();
    let f = fs.create_file("docs/", "a", 0, 0).unwrap();
    assert_eq!(fs.lookup("/docs/a"), Ok(f));
    assert_eq!(fs.lookup("docs/a"), Ok(f));
    assert_eq!(fs.get(f).unwrap().parent, Some(d));
    assert_eq!(fs.create_file("/docs", "a", 0, 0), Err(FsError::AlreadyExists));
    assert_eq!(fs.remove("/docs/a"), Ok(()));
    assert_eq!(fs.lookup("/docs/a"), Err(FsError::NotFound));
    assert!(fs.get(f).is_err());
}

#[test]
fn vfs_descriptors_are_fresh_and_append_starts_at_the_end() {
    let mut v = vfs::init();
    assert_eq!(vfs::write_string(&mut v, "/etc/log", "12345"), Ok(()));
    let a = vfs::open(&mut v, "/etc/log", OpenFlags::read()).unwrap();
    let b = vfs::open(&mut v, "/etc/log", OpenFlags::write().union(OpenFlags::append())).unwrap();
    assert_eq!(a, 3);
    assert_eq!(b, 4);
    assert_eq!(vfs::seek(&mut v, a, SeekFrom::Current(0)), Ok(0));
    assert_eq!(vfs::seek(&mut v, b, SeekFrom::Current(0)), Ok(5));
    assert_eq!(vfs::open(&mut v, "/etc", OpenFlags::read()), Err(FsError::IsADirectory));
}
