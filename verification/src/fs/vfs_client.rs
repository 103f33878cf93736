//! The kernel's side of the VFS protocol: until the VFS server is up, file
//! operations go to the in-kernel VFS; afterwards each becomes a request to the
//! server and its reply is decoded.
//!
//! An operation either finishes at once (`VfsCall::Done`) or gives the request
//! to send to the server's endpoint (`VfsCall::Send`); the caller makes the IPC
//! call and hands the reply, or the IPC failure, to the operation's `*_reply`.
use vstd::prelude::*;
use vstd::string::*;
use super::{FsError, FsResult, OpenFlags, Stat, InodeType, DirEntry, SeekFrom, OPEN_READ, OPEN_WRITE, OPEN_CREATE,
    OPEN_APPEND, OPEN_TRUNC};
use super::vfs::{self, VfsState, open_outcome, close_outcome, read_outcome, write_outcome, stat_outcome, mkdir_outcome,
    rmdir_outcome, unlink_outcome, readdir_outcome, chdir_outcome, touch_outcome, seek_outcome};
use super::vfs_protocol::{VfsOp, VfsError, VfsRequestHeader, VfsResponseHeader, VfsStat, RequestCounter,
    build_request, encode_request, request_body, decode_response, decode_stat, REQUEST_HEADER_SIZE,
    RESPONSE_HEADER_SIZE, STAT_SIZE, DIR_ENTRY_SIZE};
use super::le::{le16_at, le64_at, read_le16, read_le64};
use crate::ipc::IpcError;
use crate::text::{lossy_string, utf8_lossy};

verus! {

/// User and group the kernel makes requests as.
pub const CLIENT_UID: u32 = 1000;
pub const CLIENT_GID: u32 = 1000;

/// What an operation leads to: its result, or a request for the server.
pub enum VfsCall<T> {
    Done(FsResult<T>),
    Send(Vec<u8>),
}

/// Whether the server takes requests, and the ids they get.
pub struct VfsClient {
    pub server_ready: bool,
    pub ids: RequestCounter,
}

impl VfsClient {
    /// Server not yet up; ids from 1.
    pub fn new() -> (c: VfsClient)
        ensures
            !c.server_ready,
            c.ids.next == 1,
    {
        VfsClient { server_ready: false, ids: RequestCounter::new() }
    }
}

/// Records whether the server takes requests.
pub fn set_vfs_server_ready(client: &mut VfsClient, ready: bool)
    ensures
        final(client).server_ready == ready,
        final(client).ids == old(client).ids,
{
    client.server_ready = ready;
}

/// Whether the server takes requests.
pub fn is_vfs_server_ready(client: &VfsClient) -> (b: bool)
    ensures
        b == client.server_ready,
{
    client.server_ready
}

/// The protocol's open bits for the kernel's open flags.
pub open spec fn vfs_flags_of(flags: OpenFlags) -> u32 {
    (if flags.has(OPEN_READ) { 0x01u32 } else { 0 }) | (if flags.has(OPEN_WRITE) { 0x02u32 } else { 0 }) | (if flags.has(
        OPEN_CREATE,
    ) { 0x04u32 } else { 0 }) | (if flags.has(OPEN_APPEND) { 0x08u32 } else { 0 }) | (if flags.has(OPEN_TRUNC) {
        0x10u32
    } else {
        0
    })
}

/// The protocol's open bits for the kernel's open flags.
pub fn to_vfs_flags(flags: OpenFlags) -> (b: u32)
    ensures
        b == vfs_flags_of(flags),
{
    let mut b: u32 = 0;
    let r: u32 = if flags.contains(OPEN_READ) { 0x01 } else { 0 };
    let w: u32 = if flags.contains(OPEN_WRITE) { 0x02 } else { 0 };
    let c: u32 = if flags.contains(OPEN_CREATE) { 0x04 } else { 0 };
    let a: u32 = if flags.contains(OPEN_APPEND) { 0x08 } else { 0 };
    let t: u32 = if flags.contains(OPEN_TRUNC) { 0x10 } else { 0 };
    b = r | w | c | a | t;
    b
}

/// The kernel error for a protocol error (an unknown one is an I/O error).
pub open spec fn fs_error_of(e: VfsError) -> FsError {
    match e {
        VfsError::NotFound => FsError::NotFound,
        VfsError::AlreadyExists => FsError::AlreadyExists,
        VfsError::NotADirectory => FsError::NotADirectory,
        VfsError::IsADirectory => FsError::IsADirectory,
        VfsError::NotEmpty => FsError::NotEmpty,
        VfsError::PermissionDenied => FsError::PermissionDenied,
        VfsError::InvalidPath => FsError::InvalidPath,
        VfsError::NoSpace => FsError::NoSpace,
        VfsError::ReadOnly => FsError::ReadOnly,
        VfsError::IoError => FsError::IoError,
        VfsError::InvalidFd => FsError::InvalidFd,
        VfsError::TooManyOpenFiles => FsError::TooManyOpenFiles,
        VfsError::InvalidArgument => FsError::InvalidArgument,
        VfsError::InvalidFilesystem => FsError::InvalidFilesystem,
        VfsError::NoFilesystem => FsError::NoFilesystem,
        VfsError::NotSupported => FsError::NotSupported,
        _ => FsError::IoError,
    }
}

/// The kernel error for a protocol error other than success.
pub fn from_vfs_error(error: VfsError) -> (e: FsError)
    requires
        error != VfsError::Success,
    ensures
        e == fs_error_of(error),
{
    match error {
        VfsError::NotFound => FsError::NotFound,
        VfsError::AlreadyExists => FsError::AlreadyExists,
        VfsError::NotADirectory => FsError::NotADirectory,
        VfsError::IsADirectory => FsError::IsADirectory,
        VfsError::NotEmpty => FsError::NotEmpty,
        VfsError::PermissionDenied => FsError::PermissionDenied,
        VfsError::InvalidPath => FsError::InvalidPath,
        VfsError::NoSpace => FsError::NoSpace,
        VfsError::ReadOnly => FsError::ReadOnly,
        VfsError::IoError => FsError::IoError,
        VfsError::InvalidFd => FsError::InvalidFd,
        VfsError::TooManyOpenFiles => FsError::TooManyOpenFiles,
        VfsError::InvalidArgument => FsError::InvalidArgument,
        VfsError::InvalidFilesystem => FsError::InvalidFilesystem,
        VfsError::NoFilesystem => FsError::NoFilesystem,
        VfsError::NotSupported => FsError::NotSupported,
        _ => FsError::IoError,
    }
}

/// A failed IPC call is an I/O error.
pub fn from_ipc_error(_error: IpcError) -> (e: FsError)
    ensures
        e == FsError::IoError,
{
    FsError::IoError
}

/// The inode type a protocol file type names (unknown ones are files).
pub open spec fn inode_type_of(t: u8) -> InodeType {
    if t == 2 {
        InodeType::Directory
    } else if t == 3 {
        InodeType::Symlink
    } else {
        InodeType::File
    }
}

/// The inode type a protocol file type names.
pub fn to_inode_type(file_type: u8) -> (t: InodeType)
    ensures
        t == inode_type_of(file_type),
{
    match file_type {
        2 => InodeType::Directory,
        3 => InodeType::Symlink,
        _ => InodeType::File,
    }
}

/// What a server reply means: the whole reply when its header says success; the
/// header's error when it says otherwise; an I/O error when the reply is shorter
/// than a header or the call failed.
pub open spec fn reply_outcome(reply: Result<Seq<u8>, IpcError>) -> FsResult<Seq<u8>> {
    match reply {
        Err(_) => Err(FsError::IoError),
        Ok(b) => if b.len() < RESPONSE_HEADER_SIZE {
            Err(FsError::IoError)
        } else if decode_response(b).error == 0 {
            Ok(b)
        } else {
            Err(fs_error_of(VfsError::spec_from_code(decode_response(b).error)))
        },
    }
}

/// Checks a server reply (see `reply_outcome`).
pub fn vfs_call_reply(reply: Result<Vec<u8>, IpcError>) -> (r: FsResult<Vec<u8>>)
    ensures
        match reply_outcome(
            match reply {
                Ok(b) => Ok(b@),
                Err(e) => Err(e),
            },
        ) {
            Ok(b) => (r matches Ok(v) && v@ == b),
            Err(e) => r == Err::<Vec<u8>, FsError>(e),
        },
{
    match reply {
        Err(e) => Err(from_ipc_error(e)),
        Ok(response) => {
            match VfsResponseHeader::from_bytes(response.as_slice()) {
                Some(header) => {
                    if header.error == 0 {
                        Ok(response)
                    } else {
                        Err(from_vfs_error(VfsError::from_i32(header.error)))
                    }
                },
                None => Err(FsError::IoError),
            }
        },
    }
}

/// A request with a header for `op` and the path, as the client sends it.
pub open spec fn path_request(op: VfsOp, id: u32, flags: u32, path: &str) -> Seq<u8> {
    encode_request(
        VfsRequestHeader {
            op: op.spec_code(),
            request_id: id,
            uid: CLIENT_UID,
            gid: CLIENT_GID,
            fd: -1i32,
            flags,
            offset: 0,
            length: 0,
            path_len: (path.spec_bytes().len() + 1) as u32,
        },
    ) + request_body(Some(path.spec_bytes()), None)
}

/// A request with a header for `op` on descriptor `fd` and no path.
pub open spec fn fd_request(op: VfsOp, id: u32, fd: u32, flags: u32, offset: u64, length: u32) -> Seq<u8> {
    encode_request(
        VfsRequestHeader {
            op: op.spec_code(),
            request_id: id,
            uid: CLIENT_UID,
            gid: CLIENT_GID,
            fd: fd as i32,
            flags,
            offset,
            length,
            path_len: 0,
        },
    )
}

/// The next id after `id`.
pub open spec fn next_id(id: u32) -> u32 {
    if id == u32::MAX { 0 } else { (id + 1) as u32 }
}

/// Builds a request for `op` on `path` with `flags`.
fn send_path(ids: &mut RequestCounter, op: VfsOp, flags: u32, path: &str) -> (msg: Vec<u8>)
    requires
        path.spec_bytes().len() + 1 <= u32::MAX,
    ensures
        msg@ == path_request(op, old(ids).next, flags, path),
        final(ids).next == next_id(old(ids).next),
{
    let mut header = VfsRequestHeader::new(op, CLIENT_UID, CLIENT_GID, ids);
    header.flags = flags;
    header.path_len = path.len() as u32 + 1;
    build_request(&header, Some(path), None)
}

/// Builds a request for `op` on descriptor `fd`.
fn send_fd(ids: &mut RequestCounter, op: VfsOp, fd: u32, flags: u32, offset: u64, length: u32) -> (msg: Vec<u8>)
    ensures
        msg@ == fd_request(op, old(ids).next, fd, flags, offset, length),
        final(ids).next == next_id(old(ids).next),
{
    let mut header = VfsRequestHeader::new(op, CLIENT_UID, CLIENT_GID, ids);
    header.fd = fd as i32;
    header.flags = flags;
    header.offset = offset;
    header.length = length;
    let msg = build_request(&header, None, None);
    assert(msg@ =~= fd_request(op, old(ids).next, fd, flags, offset, length));
    msg
}

/// Opens `path`: through the in-kernel VFS before the server is up, else a
/// request to open it with the protocol's form of `flags`.
pub fn vfs_open(client: &mut VfsClient, kvfs: &mut VfsState, path: &str, flags: OpenFlags) -> (r: VfsCall<u32>)
    requires
        old(kvfs).wf(),
        old(client).server_ready ==> path.spec_bytes().len() + 1 <= u32::MAX,
    ensures
        final(kvfs).wf(),
        !old(client).server_ready ==> *final(client) == *old(client) && (r matches VfsCall::Done(res) && open_outcome(*old(kvfs), *final(kvfs), path@, flags, res)),
        old(client).server_ready ==> (r matches VfsCall::Send(m) && m@ == path_request(
            VfsOp::Open,
            old(client).ids.next,
            vfs_flags_of(flags),
            path,
        ) && final(client).ids.next == next_id(old(client).ids.next) && *final(kvfs) == *old(kvfs)),
{
    if !client.server_ready {
        return VfsCall::Done(vfs::open(kvfs, path, flags));
    }
    let f = to_vfs_flags(flags);
    VfsCall::Send(send_path(&mut client.ids, VfsOp::Open, f, path))
}

/// The descriptor an open request got: the reply's result.
pub fn vfs_open_reply(reply: Result<Vec<u8>, IpcError>) -> (r: FsResult<u32>)
    ensures
        match reply_outcome(
            match reply {
                Ok(b) => Ok(b@),
                Err(e) => Err(e),
            },
        ) {
            Ok(b) => r == Ok::<u32, FsError>(decode_response(b).result as u32),
            Err(e) => r == Err::<u32, FsError>(e),
        },
{
    let response = match vfs_call_reply(reply) {
        Ok(b) => b,
        Err(e) => {
            return Err(e);
        },
    };
    match VfsResponseHeader::from_bytes(response.as_slice()) {
        Some(h) => Ok(h.result as u32),
        None => Err(FsError::IoError),
    }
}

/// Closes `fd`: through the in-kernel VFS before the server is up, else a request.
pub fn vfs_close(client: &mut VfsClient, kvfs: &mut VfsState, fd: u32) -> (r: VfsCall<()>)
    requires
        old(kvfs).wf(),
    ensures
        final(kvfs).wf(),
        !old(client).server_ready ==> *final(client) == *old(client) && (r matches VfsCall::Done(res) && close_outcome(*old(kvfs), *final(kvfs), fd, res)),
        old(client).server_ready ==> (r matches VfsCall::Send(m) && m@ == fd_request(
            VfsOp::Close,
            old(client).ids.next,
            fd,
            0,
            0,
            0,
        ) && final(client).ids.next == next_id(old(client).ids.next) && *final(kvfs) == *old(kvfs)),
{
    if !client.server_ready {
        return VfsCall::Done(vfs::close(kvfs, fd));
    }
    VfsCall::Send(send_fd(&mut client.ids, VfsOp::Close, fd, 0, 0, 0))
}

/// Success or the reply's error, for operations whose reply carries nothing else.
pub fn vfs_unit_reply(reply: Result<Vec<u8>, IpcError>) -> (r: FsResult<()>)
    ensures
        match reply_outcome(
            match reply {
                Ok(b) => Ok(b@),
                Err(e) => Err(e),
            },
        ) {
            Ok(_) => r == Ok::<(), FsError>(()),
            Err(e) => r == Err::<(), FsError>(e),
        },
{
    match vfs_call_reply(reply) {
        Ok(_) => Ok(()),
        Err(e) => Err(e),
    }
}

/// Reads from `fd` into `buffer`: through the in-kernel VFS before the server is
/// up, else a request for `buffer.len()` bytes.
pub fn vfs_read(client: &mut VfsClient, kvfs: &mut VfsState, fd: u32, buffer: &mut [u8]) -> (r: VfsCall<usize>)
    requires
        old(kvfs).wf(),
    ensures
        final(kvfs).wf(),
        !old(client).server_ready ==> *final(client) == *old(client) && (r matches VfsCall::Done(res) && read_outcome(*old(kvfs), *final(kvfs), fd, old(buffer)@, final(buffer)@, res)),
        old(client).server_ready ==> (r matches VfsCall::Send(m) && m@ == fd_request(
            VfsOp::Read,
            old(client).ids.next,
            fd,
            0,
            0,
            old(buffer)@.len() as u32,
        ) && final(client).ids.next == next_id(old(client).ids.next) && *final(kvfs) == *old(kvfs) && final(buffer)@
            == old(buffer)@),
{
    if !client.server_ready {
        return VfsCall::Done(vfs::read(kvfs, fd, buffer));
    }
    let len = buffer.len() as u32;
    VfsCall::Send(send_fd(&mut client.ids, VfsOp::Read, fd, 0, 0, len))
}

/// The data a read request got: the reply's `data_len` bytes after its header,
/// as many as fit, copied to the front of `buffer`; an I/O error when the reply
/// holds fewer.
pub fn vfs_read_reply(reply: Result<Vec<u8>, IpcError>, buffer: &mut [u8]) -> (r: FsResult<usize>)
    ensures
        final(buffer)@.len() == old(buffer)@.len(),
        match reply_outcome(
            match reply {
                Ok(b) => Ok(b@),
                Err(e) => Err(e),
            },
        ) {
            Ok(b) => {
                let n = decode_response(b).data_len as int;
                let k = if n < old(buffer)@.len() { n } else { old(buffer)@.len() as int };
                if b.len() < RESPONSE_HEADER_SIZE + n {
                    r == Err::<usize, FsError>(FsError::IoError) && final(buffer)@ == old(buffer)@
                } else {
                    &&& r == Ok::<usize, FsError>(k as usize)
                    &&& final(buffer)@ == b.subrange(RESPONSE_HEADER_SIZE as int, RESPONSE_HEADER_SIZE + k) + old(
                        buffer,
                    )@.skip(k)
                }
            },
            Err(e) => r == Err::<usize, FsError>(e) && final(buffer)@ == old(buffer)@,
        },
{
    let response = match vfs_call_reply(reply) {
        Ok(b) => b,
        Err(e) => {
            return Err(e);
        },
    };
    let header = match VfsResponseHeader::from_bytes(response.as_slice()) {
        Some(h) => h,
        None => {
            return Err(FsError::IoError);
        },
    };
    let data_start = RESPONSE_HEADER_SIZE as u64;
    let data_len = header.data_len as u64;
    if (response.len() as u64) < data_start + data_len {
        return Err(FsError::IoError);
    }
    let actual = if (header.data_len as usize) < buffer.len() { header.data_len as usize } else { buffer.len() };
    let ghost before = buffer@;
    let rlen = response.len();
    let mut i: usize = 0;
    while i < actual
        invariant
            rlen == response@.len(),
            i <= actual,
            actual <= buffer@.len(),
            RESPONSE_HEADER_SIZE + actual <= response@.len(),
            buffer@.len() == before.len(),
            forall|k: int| 0 <= k < i ==> buffer@[k] == response@[RESPONSE_HEADER_SIZE + k],
            forall|k: int| i <= k < buffer@.len() ==> buffer@[k] == before[k],
        decreases actual - i,
    {
        buffer[i] = response[RESPONSE_HEADER_SIZE + i];
        i = i + 1;
    }
    assert(buffer@ =~= response@.subrange(RESPONSE_HEADER_SIZE as int, RESPONSE_HEADER_SIZE + actual) + before.skip(
        actual as int,
    ));
    Ok(actual)
}

/// Writes `data` to `fd`: through the in-kernel VFS before the server is up,
/// else a request carrying the data.
pub fn vfs_write(client: &mut VfsClient, kvfs: &mut VfsState, fd: u32, data: &[u8]) -> (r: VfsCall<usize>)
    requires
        old(kvfs).wf(),
    ensures
        final(kvfs).wf(),
        !old(client).server_ready ==> *final(client) == *old(client) && (r matches VfsCall::Done(res) && write_outcome(*old(kvfs), *final(kvfs), fd, data@, res)),
        old(client).server_ready ==> (r matches VfsCall::Send(m) && m@ == fd_request(
            VfsOp::Write,
            old(client).ids.next,
            fd,
            0,
            0,
            data@.len() as u32,
        ) + data@ && final(client).ids.next == next_id(old(client).ids.next) && *final(kvfs) == *old(kvfs)),
{
    if !client.server_ready {
        return VfsCall::Done(vfs::write(kvfs, fd, data));
    }
    let mut header = VfsRequestHeader::new(VfsOp::Write, CLIENT_UID, CLIENT_GID, &mut client.ids);
    header.fd = fd as i32;
    header.length = data.len() as u32;
    let msg = build_request(&header, None, Some(data));
    assert(msg@ =~= fd_request(VfsOp::Write, old(client).ids.next, fd, 0, 0, data@.len() as u32) + data@);
    VfsCall::Send(msg)
}

/// The count a write request reports: the reply's result.
pub fn vfs_write_reply(reply: Result<Vec<u8>, IpcError>) -> (r: FsResult<usize>)
    ensures
        match reply_outcome(
            match reply {
                Ok(b) => Ok(b@),
                Err(e) => Err(e),
            },
        ) {
            Ok(b) => r == Ok::<usize, FsError>(decode_response(b).result as usize),
            Err(e) => r == Err::<usize, FsError>(e),
        },
{
    let response = match vfs_call_reply(reply) {
        Ok(b) => b,
        Err(e) => {
            return Err(e);
        },
    };
    match VfsResponseHeader::from_bytes(response.as_slice()) {
        Some(h) => Ok(h.result as usize),
        None => Err(FsError::IoError),
    }
}

/// Stats `path`: through the in-kernel VFS before the server is up, else a request.
pub fn vfs_stat(client: &mut VfsClient, kvfs: &mut VfsState, path: &str) -> (r: VfsCall<Stat>)
    requires
        old(kvfs).wf(),
        old(client).server_ready ==> path.spec_bytes().len() + 1 <= u32::MAX,
    ensures
        *final(kvfs) == *old(kvfs),
        !old(client).server_ready ==> *final(client) == *old(client) && (r matches VfsCall::Done(res) && stat_outcome(*old(kvfs), path@, res) && *final(kvfs) == *old(kvfs)),
        old(client).server_ready ==> (r matches VfsCall::Send(m) && m@ == path_request(
            VfsOp::Stat,
            old(client).ids.next,
            0,
            path,
        ) && final(client).ids.next == next_id(old(client).ids.next)),
{
    if !client.server_ready {
        return VfsCall::Done(vfs::stat(kvfs, path));
    }
    VfsCall::Send(send_path(&mut client.ids, VfsOp::Stat, 0, path))
}

/// The metadata a stat request got: the stat record after the reply's header;
/// an I/O error when the reply is too short for it.
pub fn vfs_stat_reply(reply: Result<Vec<u8>, IpcError>) -> (r: FsResult<Stat>)
    ensures
        match reply_outcome(
            match reply {
                Ok(b) => Ok(b@),
                Err(e) => Err(e),
            },
        ) {
            Ok(b) => if b.len() < RESPONSE_HEADER_SIZE + STAT_SIZE {
                r == Err::<Stat, FsError>(FsError::IoError)
            } else {
                let s = decode_stat(b.skip(RESPONSE_HEADER_SIZE as int));
                r == Ok::<Stat, FsError>(
                    Stat {
                        inode: s.inode,
                        inode_type: inode_type_of(s.file_type),
                        size: s.size as usize,
                        permissions: s.permissions,
                        uid: s.uid,
                        gid: s.gid,
                    },
                )
            },
            Err(e) => r == Err::<Stat, FsError>(e),
        },
{
    let response = match vfs_call_reply(reply) {
        Ok(b) => b,
        Err(e) => {
            return Err(e);
        },
    };
    if response.len() < RESPONSE_HEADER_SIZE + STAT_SIZE {
        return Err(FsError::IoError);
    }
    let rest = vstd::slice::slice_subrange(response.as_slice(), RESPONSE_HEADER_SIZE, response.len());
    assert(rest@ =~= response@.skip(RESPONSE_HEADER_SIZE as int));
    match VfsStat::from_bytes(rest) {
        Some(s) => Ok(
            Stat {
                inode: s.inode,
                inode_type: to_inode_type(s.file_type),
                size: s.size as usize,
                permissions: s.permissions,
                uid: s.uid,
                gid: s.gid,
            },
        ),
        None => Err(FsError::IoError),
    }
}

/// Creates directory `path`: through the in-kernel VFS before the server is up,
/// else a request with mode 0o755.
pub fn vfs_mkdir(client: &mut VfsClient, kvfs: &mut VfsState, path: &str) -> (r: VfsCall<()>)
    requires
        old(kvfs).wf(),
        old(client).server_ready ==> path.spec_bytes().len() + 1 <= u32::MAX,
    ensures
        final(kvfs).wf(),
        !old(client).server_ready ==> *final(client) == *old(client) && (r matches VfsCall::Done(res) && mkdir_outcome(*old(kvfs), *final(kvfs), path@, res)),
        old(client).server_ready ==> (r matches VfsCall::Send(m) && m@ == path_request(
            VfsOp::Mkdir,
            old(client).ids.next,
            0o755,
            path,
        ) && final(client).ids.next == next_id(old(client).ids.next) && *final(kvfs) == *old(kvfs)),
{
    if !client.server_ready {
        return VfsCall::Done(vfs::mkdir(kvfs, path));
    }
    VfsCall::Send(send_path(&mut client.ids, VfsOp::Mkdir, 0o755, path))
}

/// Removes directory `path`: through the in-kernel VFS before the server is up,
/// else a request.
pub fn vfs_rmdir(client: &mut VfsClient, kvfs: &mut VfsState, path: &str) -> (r: VfsCall<()>)
    requires
        old(kvfs).wf(),
        old(client).server_ready ==> path.spec_bytes().len() + 1 <= u32::MAX,
    ensures
        final(kvfs).wf(),
        !old(client).server_ready ==> *final(client) == *old(client) && (r matches VfsCall::Done(res) && rmdir_outcome(*old(kvfs), *final(kvfs), path@, res)),
        old(client).server_ready ==> (r matches VfsCall::Send(m) && m@ == path_request(
            VfsOp::Rmdir,
            old(client).ids.next,
            0,
            path,
        ) && final(client).ids.next == next_id(old(client).ids.next) && *final(kvfs) == *old(kvfs)),
{
    if !client.server_ready {
        return VfsCall::Done(vfs::rmdir(kvfs, path));
    }
    VfsCall::Send(send_path(&mut client.ids, VfsOp::Rmdir, 0, path))
}

/// Removes file `path`: through the in-kernel VFS before the server is up, else
/// a request.
pub fn vfs_unlink(client: &mut VfsClient, kvfs: &mut VfsState, path: &str) -> (r: VfsCall<()>)
    requires
        old(kvfs).wf(),
        old(client).server_ready ==> path.spec_bytes().len() + 1 <= u32::MAX,
    ensures
        final(kvfs).wf(),
        !old(client).server_ready ==> *final(client) == *old(client) && (r matches VfsCall::Done(res) && unlink_outcome(*old(kvfs), *final(kvfs), path@, res)),
        old(client).server_ready ==> (r matches VfsCall::Send(m) && m@ == path_request(
            VfsOp::Unlink,
            old(client).ids.next,
            0,
            path,
        ) && final(client).ids.next == next_id(old(client).ids.next) && *final(kvfs) == *old(kvfs)),
{
    if !client.server_ready {
        return VfsCall::Done(vfs::unlink(kvfs, path));
    }
    VfsCall::Send(send_path(&mut client.ids, VfsOp::Unlink, 0, path))
}

/// Lists directory `path`: through the in-kernel VFS before the server is up,
/// else the first of three requests: open it for reading (then
/// `vfs_readdir_opened`, then `vfs_readdir_listed`).
pub fn vfs_readdir(client: &mut VfsClient, kvfs: &VfsState, path: &str) -> (r: VfsCall<Vec<DirEntry>>)
    requires
        kvfs.wf(),
        old(client).server_ready ==> path.spec_bytes().len() + 1 <= u32::MAX,
    ensures
        !old(client).server_ready ==> *final(client) == *old(client) && (r matches VfsCall::Done(res) && readdir_outcome(*kvfs, path@, res)),
        old(client).server_ready ==> (r matches VfsCall::Send(m) && m@ == path_request(
            VfsOp::Open,
            old(client).ids.next,
            0x01,
            path,
        ) && final(client).ids.next == next_id(old(client).ids.next)),
{
    if !client.server_ready {
        return VfsCall::Done(vfs::readdir(kvfs, path));
    }
    VfsCall::Send(send_path(&mut client.ids, VfsOp::Open, 0x01, path))
}

/// After the directory was opened: its descriptor (the reply's result) and the
/// request that lists it.
pub fn vfs_readdir_opened(client: &mut VfsClient, reply: Result<Vec<u8>, IpcError>) -> (r: FsResult<(i32, Vec<u8>)>)
    ensures
        match reply_outcome(
            match reply {
                Ok(b) => Ok(b@),
                Err(e) => Err(e),
            },
        ) {
            Ok(b) => (r matches Ok((fd, m)) && fd == decode_response(b).result && m@ == fd_request(
                VfsOp::Readdir,
                old(client).ids.next,
                fd as u32,
                0,
                0,
                0,
            ) && final(client).ids.next == next_id(old(client).ids.next)),
            Err(e) => r == Err::<(i32, Vec<u8>), FsError>(e) && *final(client) == *old(client),
        },
        final(client).server_ready == old(client).server_ready,
{
    let response = match vfs_call_reply(reply) {
        Ok(b) => b,
        Err(e) => {
            return Err(e);
        },
    };
    let fd = match VfsResponseHeader::from_bytes(response.as_slice()) {
        Some(h) => h.result,
        None => {
            return Err(FsError::IoError);
        },
    };
    let msg = send_fd(&mut client.ids, VfsOp::Readdir, fd as u32, 0, 0, 0);
    Ok((fd, msg))
}

/// After the listing: the request that closes the directory, and the entries
/// the reply lists — up to `result` records of inode (8 bytes), type (1) and
/// name length (2) followed by the name, stopping at one that does not fit.
pub fn vfs_readdir_listed(client: &mut VfsClient, fd: i32, reply: Result<Vec<u8>, IpcError>) -> (r: (
    Vec<u8>,
    FsResult<Vec<DirEntry>>,
))
    ensures
        r.0@ == fd_request(VfsOp::Close, old(client).ids.next, fd as u32, 0, 0, 0),
        final(client).ids.next == next_id(old(client).ids.next),
        final(client).server_ready == old(client).server_ready,
        match reply_outcome(
            match reply {
                Ok(b) => Ok(b@),
                Err(e) => Err(e),
            },
        ) {
            Ok(b) => r.1 is Ok && r.1->Ok_0@.len() <= (if decode_response(b).result > 0 {
                decode_response(b).result as int
            } else {
                0
            }),
            Err(e) => (r.1 matches Err(x) && x == e),
        },
{
    let response = match vfs_call_reply(reply) {
        Ok(b) => b,
        Err(e) => {
            let close = send_fd(&mut client.ids, VfsOp::Close, fd as u32, 0, 0, 0);
            return (close, Err(e));
        },
    };
    let close = send_fd(&mut client.ids, VfsOp::Close, fd as u32, 0, 0, 0);
    let mut entries: Vec<DirEntry> = Vec::new();
    let count = match VfsResponseHeader::from_bytes(response.as_slice()) {
        Some(h) => h.result,
        None => 0,
    };
    let ghost bound: int = if count > 0 { count as int } else { 0 };
    let mut offset: usize = RESPONSE_HEADER_SIZE;
    let mut k: i32 = 0;
    let mut stop = false;
    while k < count && !stop
        invariant
            0 <= k,
            k <= bound,
            bound == (if count > 0 { count as int } else { 0 }),
            entries@.len() <= k,
            offset <= response@.len() || stop,
        decreases (if count > k { count - k } else { 0 }), (if stop { 0int } else { 1int }),
    {
        if offset > response.len() || response.len() - offset < DIR_ENTRY_SIZE {
            stop = true;
        } else {
            let inode = read_le64(response.as_slice(), offset);
            let file_type = response[offset + 8];
            let name_len = read_le16(response.as_slice(), offset + 9) as usize;
            offset = offset + DIR_ENTRY_SIZE;
            if response.len() - offset < name_len {
                stop = true;
            } else {
                let name_bytes = vstd::slice::slice_subrange(response.as_slice(), offset, offset + name_len);
                let name = lossy_string(name_bytes);
                offset = offset + name_len;
                entries.push(DirEntry { name, inode, inode_type: to_inode_type(file_type), size: 0 });
                k = k + 1;
            }
        }
    }
    (close, Ok(entries))
}

/// Changes directory to `path`: through the in-kernel VFS before the server is
/// up, else a request.
pub fn vfs_chdir(client: &mut VfsClient, kvfs: &mut VfsState, path: &str) -> (r: VfsCall<()>)
    requires
        old(kvfs).wf(),
        old(client).server_ready ==> path.spec_bytes().len() + 1 <= u32::MAX,
    ensures
        final(kvfs).wf(),
        !old(client).server_ready ==> *final(client) == *old(client) && (r matches VfsCall::Done(res) && chdir_outcome(*old(kvfs), *final(kvfs), path@, res)),
        old(client).server_ready ==> (r matches VfsCall::Send(m) && m@ == path_request(
            VfsOp::Chdir,
            old(client).ids.next,
            0,
            path,
        ) && final(client).ids.next == next_id(old(client).ids.next) && *final(kvfs) == *old(kvfs)),
{
    if !client.server_ready {
        return VfsCall::Done(vfs::chdir(kvfs, path));
    }
    VfsCall::Send(send_path(&mut client.ids, VfsOp::Chdir, 0, path))
}

/// The working directory: from the in-kernel VFS before the server is up, else a
/// request.
pub fn vfs_getcwd(client: &mut VfsClient, kvfs: &VfsState) -> (r: VfsCall<String>)
    ensures
        !old(client).server_ready ==> (r matches VfsCall::Done(Ok(s)) && s@ == kvfs.cwd() && *final(client) == *old(client)),
        old(client).server_ready ==> (r matches VfsCall::Send(m) && m@ == fd_request(
            VfsOp::Getcwd,
            old(client).ids.next,
            u32::MAX,
            0,
            0,
            0,
        ) && final(client).ids.next == next_id(old(client).ids.next)),
{
    if !client.server_ready {
        return VfsCall::Done(vfs::getcwd(kvfs));
    }
    let header = VfsRequestHeader::new(VfsOp::Getcwd, CLIENT_UID, CLIENT_GID, &mut client.ids);
    let msg = build_request(&header, None, None);
    assert(((-1i32) as u32 == u32::MAX) && ((u32::MAX as u32) as i32 == -1i32)) by (bit_vector);
    assert(msg@ =~= fd_request(VfsOp::Getcwd, old(client).ids.next, u32::MAX, 0, 0, 0));
    VfsCall::Send(msg)
}

/// The directory a getcwd request got: the reply's `data_len` bytes after its
/// header as text; an I/O error when the reply holds fewer.
pub fn vfs_getcwd_reply(reply: Result<Vec<u8>, IpcError>) -> (r: FsResult<String>)
    ensures
        match reply_outcome(
            match reply {
                Ok(b) => Ok(b@),
                Err(e) => Err(e),
            },
        ) {
            Ok(b) => {
                let n = decode_response(b).data_len as int;
                if b.len() < RESPONSE_HEADER_SIZE + n {
                    r == Err::<String, FsError>(FsError::IoError)
                } else {
                    r matches Ok(s) && s@ == utf8_lossy(b.subrange(RESPONSE_HEADER_SIZE as int, RESPONSE_HEADER_SIZE + n))
                }
            },
            Err(e) => r == Err::<String, FsError>(e),
        },
{
    let response = match vfs_call_reply(reply) {
        Ok(b) => b,
        Err(e) => {
            return Err(e);
        },
    };
    let header = match VfsResponseHeader::from_bytes(response.as_slice()) {
        Some(h) => h,
        None => {
            return Err(FsError::IoError);
        },
    };
    let data_len = header.data_len as u64;
    if (response.len() as u64) < RESPONSE_HEADER_SIZE as u64 + data_len {
        return Err(FsError::IoError);
    }
    let bytes = vstd::slice::slice_subrange(
        response.as_slice(),
        RESPONSE_HEADER_SIZE,
        RESPONSE_HEADER_SIZE + header.data_len as usize,
    );
    Ok(lossy_string(bytes))
}

/// Creates an empty file at `path`: through the in-kernel VFS before the server
/// is up, else a request.
pub fn vfs_touch(client: &mut VfsClient, kvfs: &mut VfsState, path: &str) -> (r: VfsCall<()>)
    requires
        old(kvfs).wf(),
        old(client).server_ready ==> path.spec_bytes().len() + 1 <= u32::MAX,
    ensures
        final(kvfs).wf(),
        !old(client).server_ready ==> *final(client) == *old(client) && (r matches VfsCall::Done(res) && touch_outcome(*old(kvfs), *final(kvfs), path@, res)),
        old(client).server_ready ==> (r matches VfsCall::Send(m) && m@ == path_request(
            VfsOp::Touch,
            old(client).ids.next,
            0,
            path,
        ) && final(client).ids.next == next_id(old(client).ids.next) && *final(kvfs) == *old(kvfs)),
{
    if !client.server_ready {
        return VfsCall::Done(vfs::touch(kvfs, path));
    }
    VfsCall::Send(send_path(&mut client.ids, VfsOp::Touch, 0, path))
}

/// The protocol's origin number and offset for a seek.
pub open spec fn seek_fields(pos: SeekFrom) -> (u32, u64) {
    match pos {
        SeekFrom::Start(o) => (0u32, o),
        SeekFrom::Current(o) => (1u32, o as u64),
        SeekFrom::End(o) => (2u32, o as u64),
    }
}

/// Seeks `fd`: through the in-kernel VFS before the server is up, else a request
/// with the origin in `flags` and the offset.
pub fn vfs_seek(client: &mut VfsClient, kvfs: &mut VfsState, fd: u32, pos: SeekFrom) -> (r: VfsCall<u64>)
    requires
        old(kvfs).wf(),
    ensures
        final(kvfs).wf(),
        !old(client).server_ready ==> *final(client) == *old(client) && (r matches VfsCall::Done(res) && seek_outcome(*old(kvfs), *final(kvfs), fd, pos, res)),
        old(client).server_ready ==> (r matches VfsCall::Send(m) && m@ == fd_request(
            VfsOp::Seek,
            old(client).ids.next,
            fd,
            seek_fields(pos).0,
            seek_fields(pos).1,
            0,
        ) && final(client).ids.next == next_id(old(client).ids.next) && *final(kvfs) == *old(kvfs)),
{
    if !client.server_ready {
        return VfsCall::Done(vfs::seek(kvfs, fd, pos));
    }
    let (flags, offset): (u32, u64) = match pos {
        SeekFrom::Start(o) => (0, o),
        SeekFrom::Current(o) => (1, o as u64),
        SeekFrom::End(o) => (2, o as u64),
    };
    VfsCall::Send(send_fd(&mut client.ids, VfsOp::Seek, fd, flags, offset, 0))
}

/// The position a seek request reports: the reply's result.
pub fn vfs_seek_reply(reply: Result<Vec<u8>, IpcError>) -> (r: FsResult<u64>)
    ensures
        match reply_outcome(
            match reply {
                Ok(b) => Ok(b@),
                Err(e) => Err(e),
            },
        ) {
            Ok(b) => r == Ok::<u64, FsError>(decode_response(b).result as u64),
            Err(e) => r == Err::<u64, FsError>(e),
        },
{
    let response = match vfs_call_reply(reply) {
        Ok(b) => b,
        Err(e) => {
            return Err(e);
        },
    };
    match VfsResponseHeader::from_bytes(response.as_slice()) {
        Some(h) => Ok(h.result as u64),
        None => Err(FsError::IoError),
    }
}

/// Changes the mode of `path`: unsupported before the server is up, else a
/// request with the mode in `flags`.
pub fn vfs_chmod(client: &mut VfsClient, path: &str, mode: u16) -> (r: VfsCall<()>)
    requires
        old(client).server_ready ==> path.spec_bytes().len() + 1 <= u32::MAX,
    ensures
        !old(client).server_ready ==> (r matches VfsCall::Done(Err(FsError::NotSupported)) && *final(client) == *old(client)),
        old(client).server_ready ==> (r matches VfsCall::Send(m) && m@ == path_request(
            VfsOp::Chmod,
            old(client).ids.next,
            mode as u32,
            path,
        ) && final(client).ids.next == next_id(old(client).ids.next)),
{
    if !client.server_ready {
        return VfsCall::Done(Err(FsError::NotSupported));
    }
    VfsCall::Send(send_path(&mut client.ids, VfsOp::Chmod, mode as u32, path))
}

/// Changes the owner of `path`: unsupported before the server is up, else a
/// request with the owner in `flags` and the group in `length`.
pub fn vfs_chown(client: &mut VfsClient, path: &str, owner: u32, group: u32) -> (r: VfsCall<()>)
    requires
        old(client).server_ready ==> path.spec_bytes().len() + 1 <= u32::MAX,
    ensures
        !old(client).server_ready ==> (r matches VfsCall::Done(Err(FsError::NotSupported)) && *final(client) == *old(client)),
        old(client).server_ready ==> (r matches VfsCall::Send(m) && m@ == encode_request(
            VfsRequestHeader {
                op: VfsOp::Chown.spec_code(),
                request_id: old(client).ids.next,
                uid: CLIENT_UID,
                gid: CLIENT_GID,
                fd: -1i32,
                flags: owner,
                offset: 0,
                length: group,
                path_len: (path.spec_bytes().len() + 1) as u32,
            },
        ) + request_body(Some(path.spec_bytes()), None) && final(client).ids.next == next_id(old(client).ids.next)),
{
    if !client.server_ready {
        return VfsCall::Done(Err(FsError::NotSupported));
    }
    let mut header = VfsRequestHeader::new(VfsOp::Chown, CLIENT_UID, CLIENT_GID, &mut client.ids);
    header.path_len = path.len() as u32 + 1;
    header.flags = owner;
    header.length = group;
    VfsCall::Send(build_request(&header, Some(path), None))
}

/// Truncates `fd` to `size`: unsupported before the server is up, else a
/// request with the size as offset.
pub fn vfs_truncate(client: &mut VfsClient, fd: u32, size: u64) -> (r: VfsCall<()>)
    ensures
        !old(client).server_ready ==> (r matches VfsCall::Done(Err(FsError::NotSupported)) && *final(client) == *old(client)),
        old(client).server_ready ==> (r matches VfsCall::Send(m) && m@ == fd_request(
            VfsOp::Truncate,
            old(client).ids.next,
            fd,
            0,
            size,
            0,
        ) && final(client).ids.next == next_id(old(client).ids.next)),
{
    if !client.server_ready {
        return VfsCall::Done(Err(FsError::NotSupported));
    }
    VfsCall::Send(send_fd(&mut client.ids, VfsOp::Truncate, fd, 0, size, 0))
}

/// Syncs `fd`: nothing to do before the server is up, else a request.
pub fn vfs_sync(client: &mut VfsClient, fd: u32) -> (r: VfsCall<()>)
    ensures
        !old(client).server_ready ==> (r matches VfsCall::Done(Ok(())) && *final(client) == *old(client)),
        old(client).server_ready ==> (r matches VfsCall::Send(m) && m@ == fd_request(
            VfsOp::Sync,
            old(client).ids.next,
            fd,
            0,
            0,
            0,
        ) && final(client).ids.next == next_id(old(client).ids.next)),
{
    if !client.server_ready {
        return VfsCall::Done(Ok(()));
    }
    VfsCall::Send(send_fd(&mut client.ids, VfsOp::Sync, fd, 0, 0, 0))
}

} // verus!
