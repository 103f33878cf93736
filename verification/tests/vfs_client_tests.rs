use kernel::fs::vfs;
use kernel::fs::vfs_client::{
    from_vfs_error, is_vfs_server_ready, set_vfs_server_ready, to_inode_type, to_vfs_flags, vfs_call_reply,
    vfs_getcwd, vfs_getcwd_reply, vfs_open, vfs_open_reply, vfs_read, vfs_read_reply, vfs_stat_reply,
    vfs_unit_reply, vfs_write_reply, VfsCall, VfsClient,
};
use kernel::fs::vfs_protocol::{VfsError, VfsRequestHeader, VfsResponseHeader, VfsStat};
use kernel::fs::{FsError, InodeType, OpenFlags};
use kernel::ipc::IpcError;

fn reply(h: VfsResponseHeader, data: &[u8]) -> Result<Vec<u8>, IpcError> {
    let mut b = h.to_bytes();
    b.extend_from_slice(data);
    Ok(b)
}

#[test]
fn before_the_server_calls_go_to_the_kernel_vfs() {
    let mut c = VfsClient::new();
    let mut k = vfs::init();
    assert!(!is_vfs_server_ready(&c));
    match vfs_open(&mut c, &mut k, "/tmp/f", OpenFlags::write().union(OpenFlags::create())) {
        VfsCall::Done(r) => assert_eq!(r, Ok(3)),
        VfsCall::Send(_) => panic!("no server yet"),
    }
    match vfs_getcwd(&mut c, &k) {
        VfsCall::Done(r) => assert_eq!(r, Ok(String::from("/"))),
        VfsCall::Send(_) => panic!("no server yet"),
    }
}

#[test]
fn with_the_server_up_calls_become_requests() {
    let mut c = VfsClient::new();
    let mut k = vfs::init();
    set_vfs_server_ready(&mut c, true);
    let msg = match vfs_open(&mut c, &mut k, "/etc/motd", OpenFlags::read()) {
        VfsCall::Send(m) => m,
        VfsCall::Done(_) => panic!("expected a request"),
    };
    let h = VfsRequestHeader::from_bytes(&msg).unwrap();
    assert_eq!(h.op, 1);
    assert_eq!(h.request_id, 1);
    assert_eq!(h.uid, 1000);
    assert_eq!(h.flags, 0x01);
    assert_eq!(h.path_len, 10);
    assert_eq!(&msg[37..46], b"/etc/motd");
    assert_eq!(msg[46], 0);
    // the kernel VFS is untouched
    assert_eq!(k.open_count(), 0);
    let mut buf = [0u8; 8];
    let msg = match vfs_read(&mut c, &mut k, 4, &mut buf) {
        VfsCall::Send(m) => m,
        VfsCall::Done(_) => panic!("expected a request"),
    };
    let h = VfsRequestHeader::from_bytes(&msg).unwrap();
    assert_eq!((h.op, h.request_id, h.fd, h.length), (3, 2, 4, 8));
}

#[test]
fn replies_are_decoded() {
    assert_eq!(vfs_open_reply(reply(VfsResponseHeader::success(1, 7), b"")), Ok(7));
    assert_eq!(vfs_open_reply(reply(VfsResponseHeader::error(1, VfsError::NotFound), b"")), Err(FsError::NotFound));
    assert_eq!(vfs_open_reply(Err(IpcError::Timeout)), Err(FsError::IoError));
    assert_eq!(vfs_open_reply(Ok(vec![0u8; 3])), Err(FsError::IoError));
    assert_eq!(vfs_unit_reply(reply(VfsResponseHeader::success(1, 0), b"")), Ok(()));
    assert_eq!(vfs_write_reply(reply(VfsResponseHeader::success(1, 5), b"")), Ok(5));
    assert!(vfs_call_reply(reply(VfsResponseHeader::error(2, VfsError::NoSpace), b"")).is_err());
    let mut buf = [9u8; 4];
    assert_eq!(vfs_read_reply(reply(VfsResponseHeader::success_with_data(1, 6, 6), b"abcdef"), &mut buf), Ok(4));
    assert_eq!(&buf, b"abcd");
    let mut buf = [9u8; 4];
    // the reply claims more data than it holds
    assert_eq!(vfs_read_reply(reply(VfsResponseHeader::success_with_data(1, 6, 6), b"ab"), &mut buf), Err(FsError::IoError));
    assert_eq!(buf, [9u8; 4]);
    let st = VfsStat { inode: 4, size: 10, file_type: 2, permissions: 0o755, uid: 1, gid: 2, atime: 0, mtime: 0, ctime: 0 };
    let s = vfs_stat_reply(reply(VfsResponseHeader::success(1, 0), &st.to_bytes())).unwrap();
    assert_eq!(s.inode, 4);
    assert_eq!(s.size, 10);
    assert_eq!(s.inode_type, InodeType::Directory);
    assert_eq!(s.permissions, 0o755);
    assert_eq!(vfs_stat_reply(reply(VfsResponseHeader::success(1, 0), b"short")), Err(FsError::IoError));
    assert_eq!(vfs_getcwd_reply(reply(VfsResponseHeader::success_with_data(1, 0, 5), b"/home")), Ok(String::from("/home")));
}

#[test]
fn conversions() {
    assert_eq!(to_vfs_flags(OpenFlags::read().union(OpenFlags::trunc())), 0x11);
    assert_eq!(from_vfs_error(VfsError::NotEmpty), FsError::NotEmpty);
    assert_eq!(to_inode_type(3), InodeType::Symlink);
    assert_eq!(to_inode_type(9), InodeType::File);
}
