//! The message format between VFS clients and the VFS server.
//!
//! A request is a 37-byte header, then the path's bytes and a terminating zero
//! (when there is a path), then the data (when there is data). A response is a
//! 16-byte header, then its data. All integers are little-endian and packed.
use vstd::prelude::*;
use vstd::utf8::*;
use vstd::string::*;
use super::le::{le16_at, le32_at, le64_at, le16_bytes, le32_bytes, le64_bytes, lemma_le16_roundtrip,
    lemma_le32_roundtrip, lemma_le64_roundtrip, read_le16, read_le32, read_le64, push_le16, push_le32, push_le64};
use super::vfs::string_from_utf8;

verus! {

/// Maximum path length in bytes.
pub const MAX_PATH_LEN: usize = 1024;
/// Maximum file-name length in bytes.
pub const MAX_NAME_LEN: usize = 256;
/// Maximum data payload per message.
pub const MAX_DATA_LEN: usize = 3072;
/// The endpoint the VFS server listens on.
pub const VFS_ENDPOINT_ID: u64 = 1000;

/// Bytes of a request header.
pub const REQUEST_HEADER_SIZE: usize = 37;
/// Bytes of a response header.
pub const RESPONSE_HEADER_SIZE: usize = 16;
/// Bytes of a stat record.
pub const STAT_SIZE: usize = 51;
/// Bytes of a directory-entry record before its name.
pub const DIR_ENTRY_SIZE: usize = 11;

/// Operations.
#[derive(Debug, Clone, Copy, PartialEq, Eq, Structural)]
pub enum VfsOp {
    Open,
    Close,
    Read,
    Write,
    Stat,
    Mkdir,
    Rmdir,
    Unlink,
    Readdir,
    Seek,
    Sync,
    Rename,
    Symlink,
    Readlink,
    Truncate,
    Chmod,
    Chown,
    Touch,
    Chdir,
    Getcwd,
    Mount,
    Unmount,
    Invalid,
}

impl VfsOp {
    /// The operation's number on the wire.
    pub open spec fn spec_code(self) -> u8 {
        match self {
            VfsOp::Open => 1,
            VfsOp::Close => 2,
            VfsOp::Read => 3,
            VfsOp::Write => 4,
            VfsOp::Stat => 5,
            VfsOp::Mkdir => 6,
            VfsOp::Rmdir => 7,
            VfsOp::Unlink => 8,
            VfsOp::Readdir => 9,
            VfsOp::Seek => 10,
            VfsOp::Sync => 11,
            VfsOp::Rename => 12,
            VfsOp::Symlink => 13,
            VfsOp::Readlink => 14,
            VfsOp::Truncate => 15,
            VfsOp::Chmod => 16,
            VfsOp::Chown => 17,
            VfsOp::Touch => 18,
            VfsOp::Chdir => 19,
            VfsOp::Getcwd => 20,
            VfsOp::Mount => 100,
            VfsOp::Unmount => 101,
            VfsOp::Invalid => 255,
        }
    }

    /// The operation a number names; unknown numbers are `Invalid`.
    pub open spec fn spec_from_code(v: u8) -> VfsOp {
        if v == 1 {
            VfsOp::Open
        } else if v == 2 {
            VfsOp::Close
        } else if v == 3 {
            VfsOp::Read
        } else if v == 4 {
            VfsOp::Write
        } else if v == 5 {
            VfsOp::Stat
        } else if v == 6 {
            VfsOp::Mkdir
        } else if v == 7 {
            VfsOp::Rmdir
        } else if v == 8 {
            VfsOp::Unlink
        } else if v == 9 {
            VfsOp::Readdir
        } else if v == 10 {
            VfsOp::Seek
        } else if v == 11 {
            VfsOp::Sync
        } else if v == 12 {
            VfsOp::Rename
        } else if v == 13 {
            VfsOp::Symlink
        } else if v == 14 {
            VfsOp::Readlink
        } else if v == 15 {
            VfsOp::Truncate
        } else if v == 16 {
            VfsOp::Chmod
        } else if v == 17 {
            VfsOp::Chown
        } else if v == 18 {
            VfsOp::Touch
        } else if v == 19 {
            VfsOp::Chdir
        } else if v == 20 {
            VfsOp::Getcwd
        } else if v == 100 {
            VfsOp::Mount
        } else if v == 101 {
            VfsOp::Unmount
        } else {
            VfsOp::Invalid
        }
    }

    /// The operation's number on the wire.
    pub fn code(self) -> (c: u8)
        ensures
            c == self.spec_code(),
    {
        match self {
            VfsOp::Open => 1,
            VfsOp::Close => 2,
            VfsOp::Read => 3,
            VfsOp::Write => 4,
            VfsOp::Stat => 5,
            VfsOp::Mkdir => 6,
            VfsOp::Rmdir => 7,
            VfsOp::Unlink => 8,
            VfsOp::Readdir => 9,
            VfsOp::Seek => 10,
            VfsOp::Sync => 11,
            VfsOp::Rename => 12,
            VfsOp::Symlink => 13,
            VfsOp::Readlink => 14,
            VfsOp::Truncate => 15,
            VfsOp::Chmod => 16,
            VfsOp::Chown => 17,
            VfsOp::Touch => 18,
            VfsOp::Chdir => 19,
            VfsOp::Getcwd => 20,
            VfsOp::Mount => 100,
            VfsOp::Unmount => 101,
            VfsOp::Invalid => 255,
        }
    }

    /// The operation a number names.
    pub fn from_u8(v: u8) -> (op: VfsOp)
        ensures
            op == VfsOp::spec_from_code(v),
    {
        match v {
            1 => VfsOp::Open,
            2 => VfsOp::Close,
            3 => VfsOp::Read,
            4 => VfsOp::Write,
            5 => VfsOp::Stat,
            6 => VfsOp::Mkdir,
            7 => VfsOp::Rmdir,
            8 => VfsOp::Unlink,
            9 => VfsOp::Readdir,
            10 => VfsOp::Seek,
            11 => VfsOp::Sync,
            12 => VfsOp::Rename,
            13 => VfsOp::Symlink,
            14 => VfsOp::Readlink,
            15 => VfsOp::Truncate,
            16 => VfsOp::Chmod,
            17 => VfsOp::Chown,
            18 => VfsOp::Touch,
            19 => VfsOp::Chdir,
            20 => VfsOp::Getcwd,
            100 => VfsOp::Mount,
            101 => VfsOp::Unmount,
            _ => VfsOp::Invalid,
        }
    }
}

/// Every operation's number names it again.
pub proof fn law_op_code_roundtrip(op: VfsOp)
    ensures
        VfsOp::spec_from_code(op.spec_code()) == op,
{
}

/// Open flags on the wire.
#[derive(Debug, Clone, Copy, PartialEq, Eq, Structural)]
pub enum VfsOpenFlags {
    Read,
    Write,
    Create,
    Append,
    Truncate,
}

impl VfsOpenFlags {
    /// The flag's bit.
    pub fn bits(self) -> (b: u32)
        ensures
            b == (match self {
                VfsOpenFlags::Read => 0x01u32,
                VfsOpenFlags::Write => 0x02u32,
                VfsOpenFlags::Create => 0x04u32,
                VfsOpenFlags::Append => 0x08u32,
                VfsOpenFlags::Truncate => 0x10u32,
            }),
    {
        match self {
            VfsOpenFlags::Read => 0x01,
            VfsOpenFlags::Write => 0x02,
            VfsOpenFlags::Create => 0x04,
            VfsOpenFlags::Append => 0x08,
            VfsOpenFlags::Truncate => 0x10,
        }
    }
}

/// Seek origins on the wire.
#[derive(Debug, Clone, Copy, PartialEq, Eq, Structural)]
pub enum VfsSeekFrom {
    Start,
    Current,
    End,
}

impl VfsSeekFrom {
    /// The origin's number.
    pub fn code(self) -> (c: u8)
        ensures
            c == (match self {
                VfsSeekFrom::Start => 0u8,
                VfsSeekFrom::Current => 1u8,
                VfsSeekFrom::End => 2u8,
            }),
    {
        match self {
            VfsSeekFrom::Start => 0,
            VfsSeekFrom::Current => 1,
            VfsSeekFrom::End => 2,
        }
    }
}

/// File types on the wire.
#[derive(Debug, Clone, Copy, PartialEq, Eq, Structural)]
pub enum VfsFileType {
    Regular,
    Directory,
    Symlink,
}

impl VfsFileType {
    /// The type's number.
    pub fn code(self) -> (c: u8)
        ensures
            c == (match self {
                VfsFileType::Regular => 1u8,
                VfsFileType::Directory => 2u8,
                VfsFileType::Symlink => 3u8,
            }),
    {
        match self {
            VfsFileType::Regular => 1,
            VfsFileType::Directory => 2,
            VfsFileType::Symlink => 3,
        }
    }
}

/// Error codes on the wire (0 is success).
#[derive(Debug, Clone, Copy, PartialEq, Eq, Structural)]
pub enum VfsError {
    Success,
    NotFound,
    AlreadyExists,
    NotADirectory,
    IsADirectory,
    NotEmpty,
    PermissionDenied,
    InvalidPath,
    NoSpace,
    ReadOnly,
    IoError,
    InvalidFd,
    TooManyOpenFiles,
    InvalidArgument,
    InvalidFilesystem,
    NoFilesystem,
    NotSupported,
    Unknown,
}

impl VfsError {
    /// The error's code.
    pub open spec fn spec_code(self) -> i32 {
        match self {
            VfsError::Success => 0,
            VfsError::NotFound => -1i32,
            VfsError::AlreadyExists => -2i32,
            VfsError::NotADirectory => -3i32,
            VfsError::IsADirectory => -4i32,
            VfsError::NotEmpty => -5i32,
            VfsError::PermissionDenied => -6i32,
            VfsError::InvalidPath => -7i32,
            VfsError::NoSpace => -8i32,
            VfsError::ReadOnly => -9i32,
            VfsError::IoError => -10i32,
            VfsError::InvalidFd => -11i32,
            VfsError::TooManyOpenFiles => -12i32,
            VfsError::InvalidArgument => -13i32,
            VfsError::InvalidFilesystem => -14i32,
            VfsError::NoFilesystem => -15i32,
            VfsError::NotSupported => -16i32,
            VfsError::Unknown => -255i32,
        }
    }

    /// The error a code names; unknown codes are `Unknown`.
    pub open spec fn spec_from_code(v: i32) -> VfsError {
        if v == 0 {
            VfsError::Success
        } else if -16 <= v <= -1 {
            if v == -1 {
                VfsError::NotFound
            } else if v == -2 {
                VfsError::AlreadyExists
            } else if v == -3 {
                VfsError::NotADirectory
            } else if v == -4 {
                VfsError::IsADirectory
            } else if v == -5 {
                VfsError::NotEmpty
            } else if v == -6 {
                VfsError::PermissionDenied
            } else if v == -7 {
                VfsError::InvalidPath
            } else if v == -8 {
                VfsError::NoSpace
            } else if v == -9 {
                VfsError::ReadOnly
            } else if v == -10 {
                VfsError::IoError
            } else if v == -11 {
                VfsError::InvalidFd
            } else if v == -12 {
                VfsError::TooManyOpenFiles
            } else if v == -13 {
                VfsError::InvalidArgument
            } else if v == -14 {
                VfsError::InvalidFilesystem
            } else if v == -15 {
                VfsError::NoFilesystem
            } else {
                VfsError::NotSupported
            }
        } else {
            VfsError::Unknown
        }
    }

    /// The error's code.
    pub fn code(self) -> (c: i32)
        ensures
            c == self.spec_code(),
    {
        match self {
            VfsError::Success => 0,
            VfsError::NotFound => -1i32,
            VfsError::AlreadyExists => -2i32,
            VfsError::NotADirectory => -3i32,
            VfsError::IsADirectory => -4i32,
            VfsError::NotEmpty => -5i32,
            VfsError::PermissionDenied => -6i32,
            VfsError::InvalidPath => -7i32,
            VfsError::NoSpace => -8i32,
            VfsError::ReadOnly => -9i32,
            VfsError::IoError => -10i32,
            VfsError::InvalidFd => -11i32,
            VfsError::TooManyOpenFiles => -12i32,
            VfsError::InvalidArgument => -13i32,
            VfsError::InvalidFilesystem => -14i32,
            VfsError::NoFilesystem => -15i32,
            VfsError::NotSupported => -16i32,
            VfsError::Unknown => -255i32,
        }
    }

    /// The error a code names.
    pub fn from_i32(v: i32) -> (e: VfsError)
        ensures
            e == VfsError::spec_from_code(v),
    {
        match v {
            0 => VfsError::Success,
            -1 => VfsError::NotFound,
            -2 => VfsError::AlreadyExists,
            -3 => VfsError::NotADirectory,
            -4 => VfsError::IsADirectory,
            -5 => VfsError::NotEmpty,
            -6 => VfsError::PermissionDenied,
            -7 => VfsError::InvalidPath,
            -8 => VfsError::NoSpace,
            -9 => VfsError::ReadOnly,
            -10 => VfsError::IoError,
            -11 => VfsError::InvalidFd,
            -12 => VfsError::TooManyOpenFiles,
            -13 => VfsError::InvalidArgument,
            -14 => VfsError::InvalidFilesystem,
            -15 => VfsError::NoFilesystem,
            -16 => VfsError::NotSupported,
            _ => VfsError::Unknown,
        }
    }
}

/// Every error's code names it again.
pub proof fn law_error_code_roundtrip(e: VfsError)
    ensures
        VfsError::spec_from_code(e.spec_code()) == e,
{
}

/// Hands out request ids: 1, 2, 3, ..., wrapping after the largest.
pub struct RequestCounter {
    pub next: u32,
}

impl RequestCounter {
    /// Starts at 1.
    pub fn new() -> (c: RequestCounter)
        ensures
            c.next == 1,
    {
        RequestCounter { next: 1 }
    }

    /// The next id.
    pub fn take(&mut self) -> (id: u32)
        ensures
            id == old(self).next,
            final(self).next == (if old(self).next == u32::MAX { 0 } else { (old(self).next + 1) as u32 }),
    {
        let id = self.next;
        self.next = if self.next == u32::MAX { 0 } else { self.next + 1 };
        id
    }
}

/// Request header.
#[derive(Debug, Clone, Copy, PartialEq, Eq, Structural)]
pub struct VfsRequestHeader {
    pub op: u8,
    pub request_id: u32,
    pub uid: u32,
    pub gid: u32,
    pub fd: i32,
    pub flags: u32,
    pub offset: u64,
    pub length: u32,
    pub path_len: u32,
}

/// The 37 bytes of a request header: op, request id, uid, gid, fd, flags, offset,
/// length, path length.
pub open spec fn encode_request(h: VfsRequestHeader) -> Seq<u8> {
    seq![h.op] + le32_bytes(h.request_id) + le32_bytes(h.uid) + le32_bytes(h.gid) + le32_bytes(h.fd as u32)
        + le32_bytes(h.flags) + le64_bytes(h.offset) + le32_bytes(h.length) + le32_bytes(h.path_len)
}

/// The request header in the first 37 bytes of `b`.
pub open spec fn decode_request(b: Seq<u8>) -> VfsRequestHeader {
    VfsRequestHeader {
        op: b[0],
        request_id: le32_at(b, 1),
        uid: le32_at(b, 5),
        gid: le32_at(b, 9),
        fd: le32_at(b, 13) as i32,
        flags: le32_at(b, 17),
        offset: le64_at(b, 21),
        length: le32_at(b, 29),
        path_len: le32_at(b, 33),
    }
}

/// Decoding an encoded request header gives it back, whatever follows it.
pub proof fn law_request_header_roundtrip(h: VfsRequestHeader, rest: Seq<u8>)
    ensures
        decode_request(encode_request(h) + rest) == h,
{
    let b = encode_request(h) + rest;
    assert(b.subrange(1, 5) =~= le32_bytes(h.request_id));
    assert(b.subrange(5, 9) =~= le32_bytes(h.uid));
    assert(b.subrange(9, 13) =~= le32_bytes(h.gid));
    assert(b.subrange(13, 17) =~= le32_bytes(h.fd as u32));
    assert(b.subrange(17, 21) =~= le32_bytes(h.flags));
    assert(b.subrange(21, 29) =~= le64_bytes(h.offset));
    assert(b.subrange(29, 33) =~= le32_bytes(h.length));
    assert(b.subrange(33, 37) =~= le32_bytes(h.path_len));
    lemma_le32_roundtrip(h.request_id, b, 1);
    lemma_le32_roundtrip(h.uid, b, 5);
    lemma_le32_roundtrip(h.gid, b, 9);
    lemma_le32_roundtrip(h.fd as u32, b, 13);
    lemma_le32_roundtrip(h.flags, b, 17);
    lemma_le64_roundtrip(h.offset, b, 21);
    lemma_le32_roundtrip(h.length, b, 29);
    lemma_le32_roundtrip(h.path_len, b, 33);
    let fd = h.fd;
    assert((fd as u32) as i32 == fd) by (bit_vector);
}

impl VfsRequestHeader {
    /// A request for `op` by `uid`/`gid` with the next id; no file descriptor
    /// (-1), no flags, offset, length or path.
    pub fn new(op: VfsOp, uid: u32, gid: u32, ids: &mut RequestCounter) -> (h: VfsRequestHeader)
        ensures
            h == (VfsRequestHeader {
                op: op.spec_code(),
                request_id: old(ids).next,
                uid,
                gid,
                fd: -1i32,
                flags: 0,
                offset: 0,
                length: 0,
                path_len: 0,
            }),
            final(ids).next == (if old(ids).next == u32::MAX { 0 } else { (old(ids).next + 1) as u32 }),
    {
        let request_id = ids.take();
        VfsRequestHeader { op: op.code(), request_id, uid, gid, fd: -1, flags: 0, offset: 0, length: 0, path_len: 0 }
    }

    /// The header's 37 bytes.
    pub fn to_bytes(&self) -> (b: Vec<u8>)
        ensures
            b@ == encode_request(*self),
    {
        let mut b: Vec<u8> = Vec::new();
        b.push(self.op);
        push_le32(&mut b, self.request_id);
        push_le32(&mut b, self.uid);
        push_le32(&mut b, self.gid);
        push_le32(&mut b, self.fd as u32);
        push_le32(&mut b, self.flags);
        push_le64(&mut b, self.offset);
        push_le32(&mut b, self.length);
        push_le32(&mut b, self.path_len);
        assert(b@ =~= encode_request(*self));
        b
    }

    /// The header at the front of `bytes`, when there are at least 37.
    pub fn from_bytes(bytes: &[u8]) -> (r: Option<VfsRequestHeader>)
        ensures
            bytes@.len() < REQUEST_HEADER_SIZE ==> r.is_none(),
            bytes@.len() >= REQUEST_HEADER_SIZE ==> r == Some(decode_request(bytes@)),
    {
        if bytes.len() < REQUEST_HEADER_SIZE {
            return None;
        }
        Some(VfsRequestHeader {
            op: bytes[0],
            request_id: read_le32(bytes, 1),
            uid: read_le32(bytes, 5),
            gid: read_le32(bytes, 9),
            fd: read_le32(bytes, 13) as i32,
            flags: read_le32(bytes, 17),
            offset: read_le64(bytes, 21),
            length: read_le32(bytes, 29),
            path_len: read_le32(bytes, 33),
        })
    }
}

/// Response header.
#[derive(Debug, Clone, Copy, PartialEq, Eq, Structural)]
pub struct VfsResponseHeader {
    pub request_id: u32,
    pub error: i32,
    pub result: i32,
    pub data_len: u32,
}

/// The 16 bytes of a response header: request id, error, result, data length.
pub open spec fn encode_response(h: VfsResponseHeader) -> Seq<u8> {
    le32_bytes(h.request_id) + le32_bytes(h.error as u32) + le32_bytes(h.result as u32) + le32_bytes(h.data_len)
}

/// The response header in the first 16 bytes of `b`.
pub open spec fn decode_response(b: Seq<u8>) -> VfsResponseHeader {
    VfsResponseHeader {
        request_id: le32_at(b, 0),
        error: le32_at(b, 4) as i32,
        result: le32_at(b, 8) as i32,
        data_len: le32_at(b, 12),
    }
}

/// Decoding an encoded response header gives it back, whatever follows it.
pub proof fn law_response_header_roundtrip(h: VfsResponseHeader, rest: Seq<u8>)
    ensures
        decode_response(encode_response(h) + rest) == h,
{
    let b = encode_response(h) + rest;
    assert(b.subrange(0, 4) =~= le32_bytes(h.request_id));
    assert(b.subrange(4, 8) =~= le32_bytes(h.error as u32));
    assert(b.subrange(8, 12) =~= le32_bytes(h.result as u32));
    assert(b.subrange(12, 16) =~= le32_bytes(h.data_len));
    lemma_le32_roundtrip(h.request_id, b, 0);
    lemma_le32_roundtrip(h.error as u32, b, 4);
    lemma_le32_roundtrip(h.result as u32, b, 8);
    lemma_le32_roundtrip(h.data_len, b, 12);
    let e = h.error;
    let r = h.result;
    assert(((e as u32) as i32 == e) && ((r as u32) as i32 == r)) by (bit_vector);
}

impl VfsResponseHeader {
    /// Success with a result value and no data.
    pub fn success(request_id: u32, result: i32) -> (h: VfsResponseHeader)
        ensures
            h == (VfsResponseHeader { request_id, error: 0, result, data_len: 0 }),
    {
        VfsResponseHeader { request_id, error: VfsError::Success.code(), result, data_len: 0 }
    }

    /// Success with a result value and `data_len` bytes of data.
    pub fn success_with_data(request_id: u32, result: i32, data_len: u32) -> (h: VfsResponseHeader)
        ensures
            h == (VfsResponseHeader { request_id, error: 0, result, data_len }),
    {
        VfsResponseHeader { request_id, error: VfsError::Success.code(), result, data_len }
    }

    /// Failure with `error`; the result is -1.
    pub fn error(request_id: u32, error: VfsError) -> (h: VfsResponseHeader)
        ensures
            h == (VfsResponseHeader { request_id, error: error.spec_code(), result: -1i32, data_len: 0 }),
    {
        VfsResponseHeader { request_id, error: error.code(), result: -1, data_len: 0 }
    }

    /// The header's 16 bytes.
    pub fn to_bytes(&self) -> (b: Vec<u8>)
        ensures
            b@ == encode_response(*self),
    {
        let mut b: Vec<u8> = Vec::new();
        push_le32(&mut b, self.request_id);
        push_le32(&mut b, self.error as u32);
        push_le32(&mut b, self.result as u32);
        push_le32(&mut b, self.data_len);
        assert(b@ =~= encode_response(*self));
        b
    }

    /// The header at the front of `bytes`, when there are at least 16.
    pub fn from_bytes(bytes: &[u8]) -> (r: Option<VfsResponseHeader>)
        ensures
            bytes@.len() < RESPONSE_HEADER_SIZE ==> r.is_none(),
            bytes@.len() >= RESPONSE_HEADER_SIZE ==> r == Some(decode_response(bytes@)),
    {
        if bytes.len() < RESPONSE_HEADER_SIZE {
            return None;
        }
        Some(VfsResponseHeader {
            request_id: read_le32(bytes, 0),
            error: read_le32(bytes, 4) as i32,
            result: read_le32(bytes, 8) as i32,
            data_len: read_le32(bytes, 12),
        })
    }
}

/// A stat record.
#[derive(Debug, Clone, Copy, PartialEq, Eq, Structural)]
pub struct VfsStat {
    pub inode: u64,
    pub size: u64,
    pub file_type: u8,
    pub permissions: u16,
    pub uid: u32,
    pub gid: u32,
    pub atime: u64,
    pub mtime: u64,
    pub ctime: u64,
}

/// The 51 bytes of a stat record, fields in declaration order.
pub open spec fn encode_stat(s: VfsStat) -> Seq<u8> {
    le64_bytes(s.inode) + le64_bytes(s.size) + seq![s.file_type] + le16_bytes(s.permissions) + le32_bytes(s.uid)
        + le32_bytes(s.gid) + le64_bytes(s.atime) + le64_bytes(s.mtime) + le64_bytes(s.ctime)
}

/// The stat record in the first 51 bytes of `b`.
pub open spec fn decode_stat(b: Seq<u8>) -> VfsStat {
    VfsStat {
        inode: le64_at(b, 0),
        size: le64_at(b, 8),
        file_type: b[16],
        permissions: le16_at(b, 17),
        uid: le32_at(b, 19),
        gid: le32_at(b, 23),
        atime: le64_at(b, 27),
        mtime: le64_at(b, 35),
        ctime: le64_at(b, 43),
    }
}

/// Decoding an encoded stat record gives it back, whatever follows it.
pub proof fn law_stat_roundtrip(s: VfsStat, rest: Seq<u8>)
    ensures
        decode_stat(encode_stat(s) + rest) == s,
{
    let b = encode_stat(s) + rest;
    assert(b.subrange(0, 8) =~= le64_bytes(s.inode));
    assert(b.subrange(8, 16) =~= le64_bytes(s.size));
    assert(b.subrange(17, 19) =~= le16_bytes(s.permissions));
    assert(b.subrange(19, 23) =~= le32_bytes(s.uid));
    assert(b.subrange(23, 27) =~= le32_bytes(s.gid));
    assert(b.subrange(27, 35) =~= le64_bytes(s.atime));
    assert(b.subrange(35, 43) =~= le64_bytes(s.mtime));
    assert(b.subrange(43, 51) =~= le64_bytes(s.ctime));
    lemma_le64_roundtrip(s.inode, b, 0);
    lemma_le64_roundtrip(s.size, b, 8);
    lemma_le16_roundtrip(s.permissions, b, 17);
    lemma_le32_roundtrip(s.uid, b, 19);
    lemma_le32_roundtrip(s.gid, b, 23);
    lemma_le64_roundtrip(s.atime, b, 27);
    lemma_le64_roundtrip(s.mtime, b, 35);
    lemma_le64_roundtrip(s.ctime, b, 43);
}

impl VfsStat {
    /// The record's 51 bytes.
    pub fn to_bytes(&self) -> (b: Vec<u8>)
        ensures
            b@ == encode_stat(*self),
    {
        let mut b: Vec<u8> = Vec::new();
        push_le64(&mut b, self.inode);
        push_le64(&mut b, self.size);
        b.push(self.file_type);
        push_le16(&mut b, self.permissions);
        push_le32(&mut b, self.uid);
        push_le32(&mut b, self.gid);
        push_le64(&mut b, self.atime);
        push_le64(&mut b, self.mtime);
        push_le64(&mut b, self.ctime);
        assert(b@ =~= encode_stat(*self));
        b
    }

    /// The record at the front of `bytes`, when there are at least 51.
    pub fn from_bytes(bytes: &[u8]) -> (r: Option<VfsStat>)
        ensures
            bytes@.len() < STAT_SIZE ==> r.is_none(),
            bytes@.len() >= STAT_SIZE ==> r == Some(decode_stat(bytes@)),
    {
        if bytes.len() < STAT_SIZE {
            return None;
        }
        Some(VfsStat {
            inode: read_le64(bytes, 0),
            size: read_le64(bytes, 8),
            file_type: bytes[16],
            permissions: read_le16(bytes, 17),
            uid: read_le32(bytes, 19),
            gid: read_le32(bytes, 23),
            atime: read_le64(bytes, 27),
            mtime: read_le64(bytes, 35),
            ctime: read_le64(bytes, 43),
        })
    }
}

/// A directory-entry record (its name follows).
#[derive(Debug, Clone, Copy, PartialEq, Eq, Structural)]
pub struct VfsDirEntry {
    pub inode: u64,
    pub file_type: u8,
    pub name_len: u16,
}

/// The bytes a request message holds after its header: the path's bytes and a
/// zero when there is a path, then the data when there is data.
pub open spec fn request_body(path: Option<Seq<u8>>, data: Option<Seq<u8>>) -> Seq<u8> {
    (match path {
        Some(p) => p.push(0u8),
        None => Seq::empty(),
    }) + (match data {
        Some(d) => d,
        None => Seq::empty(),
    })
}

/// Builds a request message: the header, the path and its terminating zero when
/// there is a path, then the data when there is data.
pub fn build_request(header: &VfsRequestHeader, path: Option<&str>, data: Option<&[u8]>) -> (msg: Vec<u8>)
    ensures
        msg@ == encode_request(*header) + request_body(
            match path {
                Some(p) => Some(p.spec_bytes()),
                None => None,
            },
            match data {
                Some(d) => Some(d@),
                None => None,
            },
        ),
{
    let mut msg = header.to_bytes();
    let ghost h = msg@;
    match path {
        Some(p) => {
            let bytes = p.as_bytes();
            let mut i: usize = 0;
            while i < bytes.len()
                invariant
                    i <= bytes@.len(),
                    msg@ == h + bytes@.subrange(0, i as int),
                decreases bytes@.len() - i,
            {
                msg.push(bytes[i]);
                i = i + 1;
                assert(msg@ =~= h + bytes@.subrange(0, i as int));
            }
            msg.push(0);
            assert(msg@ =~= h + bytes@.push(0u8));
        },
        None => {},
    }
    let ghost h2 = msg@;
    match data {
        Some(d) => {
            let mut i: usize = 0;
            while i < d.len()
                invariant
                    i <= d@.len(),
                    msg@ == h2 + d@.subrange(0, i as int),
                decreases d@.len() - i,
            {
                msg.push(d[i]);
                i = i + 1;
                assert(msg@ =~= h2 + d@.subrange(0, i as int));
            }
            assert(d@.subrange(0, d@.len() as int) =~= d@);
        },
        None => {},
    }
    proof {
        let pb: Option<Seq<u8>> = match path {
            Some(p) => Some(p.spec_bytes()),
            None => None,
        };
        let db: Option<Seq<u8>> = match data {
            Some(d) => Some(d@),
            None => None,
        };
        assert(msg@ =~= encode_request(*header) + request_body(pb, db));
    }
    msg
}

/// The path bytes of a request: the `path_len` bytes after the header, less one
/// terminating zero; none when the header names no path or the message is short.
pub open spec fn path_bytes(msg: Seq<u8>, header: VfsRequestHeader) -> Option<Seq<u8>> {
    let end = REQUEST_HEADER_SIZE + header.path_len;
    if header.path_len == 0 || msg.len() < end {
        None
    } else {
        let b = msg.subrange(REQUEST_HEADER_SIZE as int, end);
        if b.last() == 0 {
            Some(b.drop_last())
        } else {
            Some(b)
        }
    }
}

/// The path a request carries, when its bytes (see `path_bytes`) are UTF-8.
pub fn parse_path(msg: &[u8], header: &VfsRequestHeader) -> (r: Option<String>)
    ensures
        match path_bytes(msg@, *header) {
            None => r.is_none(),
            Some(b) => match r {
                Some(s) => valid_utf8(b) && s@ == decode_utf8(b),
                None => !valid_utf8(b),
            },
        },
{
    if header.path_len == 0 {
        return None;
    }
    let path_start: u64 = REQUEST_HEADER_SIZE as u64;
    let path_end: u64 = path_start + header.path_len as u64;
    if (msg.len() as u64) < path_end {
        return None;
    }
    let end = path_end as usize;
    let mut last = end;
    if msg[end - 1] == 0 {
        last = end - 1;
    }
    let mut bytes: Vec<u8> = Vec::new();
    let mut i: usize = REQUEST_HEADER_SIZE;
    while i < last
        invariant
            REQUEST_HEADER_SIZE <= i <= last,
            last <= msg@.len(),
            bytes@ == msg@.subrange(REQUEST_HEADER_SIZE as int, i as int),
        decreases last - i,
    {
        bytes.push(msg[i]);
        i = i + 1;
        assert(bytes@ =~= msg@.subrange(REQUEST_HEADER_SIZE as int, i as int));
    }
    proof {
        let b = msg@.subrange(REQUEST_HEADER_SIZE as int, end as int);
        if b.last() == 0 {
            assert(bytes@ =~= b.drop_last());
        } else {
            assert(bytes@ =~= b);
        }
    }
    string_from_utf8(bytes)
}

/// The data of a request: the `length` bytes after the header and path; none when
/// the length is 0 or the message is short.
pub open spec fn data_bytes(msg: Seq<u8>, header: VfsRequestHeader) -> Option<Seq<u8>> {
    let start = REQUEST_HEADER_SIZE + header.path_len;
    if header.length == 0 || msg.len() < start + header.length {
        None
    } else {
        Some(msg.subrange(start, start + header.length))
    }
}

/// The data a request carries (see `data_bytes`).
pub fn parse_data<'a>(msg: &'a [u8], header: &VfsRequestHeader) -> (r: Option<&'a [u8]>)
    ensures
        match data_bytes(msg@, *header) {
            None => r.is_none(),
            Some(d) => r.is_some() && r.unwrap()@ == d,
        },
{
    let data_start: u64 = REQUEST_HEADER_SIZE as u64 + header.path_len as u64;
    let data_len: u64 = header.length as u64;
    if data_len == 0 || (msg.len() as u64) < data_start + data_len {
        return None;
    }
    Some(vstd::slice::slice_subrange(msg, data_start as usize, (data_start + data_len) as usize))
}

/// What `parse_data` reads from a message `build_request` made is the data it was
/// given, when the header counts the path's bytes and zero and the data's length.
pub proof fn law_build_then_parse_data(h: VfsRequestHeader, path: Option<Seq<u8>>, data: Seq<u8>)
    requires
        h.path_len == (match path {
            Some(p) => p.len() + 1,
            None => 0,
        }),
        h.length == data.len(),
        data.len() > 0,
    ensures
        data_bytes(encode_request(h) + request_body(path, Some(data)), h) == Some(data),
{
    let msg = encode_request(h) + request_body(path, Some(data));
    let start = REQUEST_HEADER_SIZE + h.path_len;
    assert(msg.subrange(start, start + h.length) =~= data);
}

/// What `parse_path` reads from a message `build_request` made are the path's
/// bytes, when the header counts them and the zero.
pub proof fn law_build_then_parse_path(h: VfsRequestHeader, path: Seq<u8>, data: Option<Seq<u8>>)
    requires
        h.path_len == path.len() + 1,
    ensures
        path_bytes(encode_request(h) + request_body(Some(path), data), h) == Some(path),
{
    let msg = encode_request(h) + request_body(Some(path), data);
    let b = msg.subrange(REQUEST_HEADER_SIZE as int, REQUEST_HEADER_SIZE + h.path_len);
    assert(b =~= path.push(0u8));
    assert(b.drop_last() =~= path);
}


/// A path written into a request as UTF-8 text is read back as the same text: its
/// bytes are found again (so `parse_path` returns `Some`) and decode to the path.
pub proof fn law_build_then_parse_path_text(h: VfsRequestHeader, path: Seq<char>, data: Option<Seq<u8>>)
    requires
        h.path_len == vstd::utf8::encode_utf8(path).len() + 1,
    ensures
        path_bytes(encode_request(h) + request_body(Some(vstd::utf8::encode_utf8(path)), data), h) == Some(
            vstd::utf8::encode_utf8(path),
        ),
        valid_utf8(vstd::utf8::encode_utf8(path)),
        decode_utf8(vstd::utf8::encode_utf8(path)) == path,
{
    law_build_then_parse_path(h, vstd::utf8::encode_utf8(path), data);
    vstd::utf8::encode_utf8_valid_utf8(path);
    vstd::utf8::encode_utf8_decode_utf8(path);
}

} // verus!
