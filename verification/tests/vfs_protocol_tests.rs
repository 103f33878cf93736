use kernel::fs::vfs_protocol::{
    build_request, parse_data, parse_path, RequestCounter, VfsError, VfsOp, VfsOpenFlags,
    VfsRequestHeader, VfsResponseHeader, VfsStat, REQUEST_HEADER_SIZE, RESPONSE_HEADER_SIZE, STAT_SIZE,
};

#[test]
fn op_codes_round_trip() {
    for op in [VfsOp::Open, VfsOp::Read, VfsOp::Readdir, VfsOp::Getcwd, VfsOp::Mount, VfsOp::Unmount] {
        assert_eq!(VfsOp::from_u8(op.code()), op);
    }
    assert_eq!(VfsOp::Open.code(), 1);
    assert_eq!(VfsOp::Mount.code(), 100);
    assert_eq!(VfsOp::from_u8(42), VfsOp::Invalid);
    assert_eq!(VfsOpenFlags::Create.bits(), 0x04);
}

#[test]
fn error_codes_round_trip() {
    for e in [VfsError::Success, VfsError::NotFound, VfsError::NoSpace, VfsError::NotSupported, VfsError::Unknown] {
        assert_eq!(VfsError::from_i32(e.code()), e);
    }
    assert_eq!(VfsError::IoError.code(), -10);
    assert_eq!(VfsError::from_i32(-100), VfsError::Unknown);
}

#[test]
fn request_ids_count_up() {
    let mut ids = RequestCounter::new();
    assert_eq!(ids.take(), 1);
    assert_eq!(ids.take(), 2);
    let mut top = RequestCounter { next: u32::MAX };
    assert_eq!(top.take(), u32::MAX);
    assert_eq!(top.next, 0);
}

#[test]
fn request_header_round_trip() {
    let mut ids = RequestCounter::new();
    let mut h = VfsRequestHeader::new(VfsOp::Write, 1000, 100, &mut ids);
    assert_eq!(h.fd, -1);
    assert_eq!(h.request_id, 1);
    h.offset = 0x0102_0304_0506_0708;
    h.length = 3;
    let b = h.to_bytes();
    assert_eq!(b.len(), REQUEST_HEADER_SIZE);
    assert_eq!(b[0], 4);
    assert_eq!(&b[13..17], &[0xff, 0xff, 0xff, 0xff]);
    assert_eq!(&b[21..29], &[8, 7, 6, 5, 4, 3, 2, 1]);
    assert_eq!(VfsRequestHeader::from_bytes(&b), Some(h));
    assert_eq!(VfsRequestHeader::from_bytes(&b[..36]), None);
}

#[test]
fn response_header_round_trip() {
    let r = VfsResponseHeader::error(9, VfsError::NotFound);
    assert_eq!(r.result, -1);
    assert_eq!(r.error, -1);
    let b = r.to_bytes();
    assert_eq!(b.len(), RESPONSE_HEADER_SIZE);
    assert_eq!(VfsResponseHeader::from_bytes(&b), Some(r));
    let ok = VfsResponseHeader::success_with_data(3, 5, 5);
    assert_eq!(VfsResponseHeader::from_bytes(&ok.to_bytes()), Some(ok));
    assert_eq!(VfsResponseHeader::success(3, 0).data_len, 0);
    assert_eq!(VfsResponseHeader::from_bytes(&b[..15]), None);
}

#[test]
fn stat_round_trip() {
    let s = VfsStat {
        inode: 2,
        size: 4096,
        file_type: 2,
        permissions: 0o755,
        uid: 0,
        gid: 0,
        atime: 1,
        mtime: 2,
        ctime: 3,
    };
    let b = s.to_bytes();
    assert_eq!(b.len(), STAT_SIZE);
    assert_eq!(VfsStat::from_bytes(&b), Some(s));
    assert_eq!(VfsStat::from_bytes(&b[..50]), None);
}

#[test]
fn build_then_parse() {
    let mut ids = RequestCounter::new();
    let mut h = VfsRequestHeader::new(VfsOp::Write, 0, 0, &mut ids);
    h.path_len = "/tmp/a".len() as u32 + 1;
    h.length = 4;
    let msg = build_request(&h, Some("/tmp/a"), Some(b"data"));
    assert_eq!(msg.len(), REQUEST_HEADER_SIZE + 7 + 4);
    let back = VfsRequestHeader::from_bytes(&msg).unwrap();
    assert_eq!(back, h);
    assert_eq!(parse_path(&msg, &back), Some(String::from("/tmp/a")));
    assert_eq!(parse_data(&msg, &back), Some(&b"data"[..]));
}

#[test]
fn parse_edge_cases() {
    let mut ids = RequestCounter::new();
    let mut h = VfsRequestHeader::new(VfsOp::Stat, 0, 0, &mut ids);
    let msg = build_request(&h, None, None);
    assert_eq!(parse_path(&msg, &h), None);
    assert_eq!(parse_data(&msg, &h), None);
    // a path length past the end of the message
    h.path_len = 10;
    assert_eq!(parse_path(&msg, &h), None);
    // bytes that are not UTF-8
    let mut bad = h;
    bad.path_len = 2;
    let msg = build_request(&bad, None, Some(&[0xff, 0x00]));
    assert_eq!(parse_path(&msg, &bad), None);
    // a path without its terminating zero is taken whole
    let mut h2 = VfsRequestHeader::new(VfsOp::Stat, 0, 0, &mut ids);
    h2.path_len = 2;
    let msg = build_request(&h2, None, Some(b"/x"));
    assert_eq!(parse_path(&msg, &h2), Some(String::from("/x")));
}
