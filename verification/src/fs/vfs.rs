//! Virtual filesystem layer: file handles and working directory over the RamFS.
use vstd::prelude::*;
use vstd::utf8::*;
use vstd::string::*;
use std::collections::BTreeMap;

use super::{OpenFlags, SeekFrom, FsError, FsResult, Stat, DirEntry, InodeType, OPEN_READ, OPEN_WRITE, OPEN_CREATE, OPEN_APPEND, OPEN_TRUNC};
use super::ramfs::{FsMap, RamFs, resized_data, InodeView, lookup_spec, create_spec, remove_spec, read_len, read_into, written_data, sorted_by_name, entry_views, child_entries, MAX_FILE_SIZE};
use super::path::{self, normalize_spec, join_input, split_spec};

verus! {

broadcast use vstd::std_specs::btree::group_btree_axioms;

/// Owner given to files created through the VFS layer.
pub const DEFAULT_UID: u32 = 1000;
/// Group given to files created through the VFS layer.
pub const DEFAULT_GID: u32 = 1000;

/// Maximum number of open files per process
pub const MAX_OPEN_FILES: usize = 256;

/// File handle representing an open file
#[derive(Debug, Clone, Copy)]
pub struct FileHandle {
    /// Inode ID of the file
    pub inode_id: u64,
    /// Current position in file
    pub position: usize,
    /// Open flags
    pub flags: OpenFlags,
}

/// VFS state: the filesystem, the open handles and the working directory.
pub struct VfsState {
    /// The underlying filesystem
    pub fs: RamFs,
    /// Open file handles (fd -> handle)
    pub handles: BTreeMap<u32, FileHandle>,
    /// Next file descriptor to allocate
    pub next_fd: u32,
    /// Current working directory
    pub cwd: String,
}

/// The absolute, normalized path that `p` names when the working directory is `cwd`.
pub open spec fn resolve_spec(cwd: Seq<char>, p: Seq<char>) -> Seq<char> {
    normalize_spec(join_input(cwd, p))
}

impl VfsState {
    pub closed spec fn handles(&self) -> Map<u32, FileHandle> {
        self.handles@
    }

    pub closed spec fn next_fd(&self) -> u32 {
        self.next_fd
    }

    pub closed spec fn cwd(&self) -> Seq<char> {
        self.cwd@
    }

    pub open spec fn wf(&self) -> bool {
        self.fs.wf()
    }

    /// Number of open handles.
    pub fn open_count(&self) -> (n: usize)
        ensures
            n == self.handles().len(),
    {
        self.handles.len()
    }
}

fn lit(c: char) -> (s: String)
    ensures
        s@ == seq![c],
{
    let mut s = String::new();
    crate::text::push_char(&mut s, c);
    assert(s@ =~= seq![c]);
    s
}

/// Initialize the VFS: an empty RamFS with `/home`, `/tmp`, `/etc` and `/var`,
/// no open handles, descriptors starting at 3 and the root as working directory.
pub fn init() -> (v: VfsState)
    ensures
        v.wf(),
        v.handles().len() == 0,
        v.handles() == Map::<u32, FileHandle>::empty(),
        v.next_fd() == 3,
        v.cwd() == seq!['/'],
{
    let mut fs = RamFs::new();
    let root = lit('/');
    let _ = fs.create_dir("/", "home", 0, 0);
    let _ = fs.create_dir("/", "tmp", 0, 0);
    let _ = fs.create_dir("/", "etc", 0, 0);
    let _ = fs.create_dir("/", "var", 0, 0);
    let handles: BTreeMap<u32, FileHandle> = BTreeMap::new();
    VfsState { fs, handles, next_fd: 3, cwd: root }
}

/// Resolve a path relative to the working directory.
fn resolve_path(vfs: &VfsState, p: &str) -> (r: String)
    ensures
        r@ == resolve_spec(vfs.cwd(), p@),
{
    if path::is_absolute(p) {
        path::normalize_path(p)
    } else {
        path::join_path(vfs.cwd.as_str(), p)
    }
}

/// The outcome of opening `path` with `flags`: the result `r` and, where the state
/// changes, the state after (`post`) in terms of the state before (`pre`).
pub open spec fn open_outcome(pre: VfsState, post: VfsState, path: Seq<char>, flags: OpenFlags, r: FsResult<u32>) -> bool {
    &&& post.cwd() == pre.cwd()
    &&& ({
        let resolved = resolve_spec(pre.cwd(), path);
        let m = pre.fs@;
        let root = pre.fs.root_id();
        match lookup_spec(m, root, resolved) {
            Ok(id) => if !m.contains_key(id) {
                r == Err::<u32, FsError>(FsError::NotFound)
            } else if m[id].inode_type == InodeType::Directory {
                r == Err::<u32, FsError>(FsError::IsADirectory)
            } else {
                &&& (flags.has(OPEN_TRUNC) && flags.has(OPEN_WRITE) ==> post.fs@.contains_key(id)
                    && post.fs@[id].size == 0)
                &&& (!(flags.has(OPEN_TRUNC) && flags.has(OPEN_WRITE)) ==> post.fs@ == m)
                &&& opened(pre, post, id, flags, r)
            },
            Err(e) => if e == FsError::NotFound && flags.has(OPEN_CREATE) {
                let (parent, name) = split_spec(resolved);
                if name.len() == 0 {
                    r == Err::<u32, FsError>(FsError::InvalidPath)
                } else {
                    exists|cr: FsResult<u64>|
                        #[trigger] create_spec(m, root, pre.fs.next_id(), parent, name, InodeType::File,
                            DEFAULT_UID, DEFAULT_GID, cr, post.fs@)
                        && match cr {
                            Ok(id) => opened(pre, post, id, flags, r),
                            Err(ce) => r == Err::<u32, FsError>(ce),
                        }
                }
            } else {
                r == Err::<u32, FsError>(e) && post.fs@ == m
            },
        }
    })
    &&& r is Err ==> post.handles() == pre.handles()
}

/// Open a file and return a new descriptor for it.
///
/// An existing directory is refused; an existing file opened with `TRUNC | WRITE` is
/// truncated; a missing file is created when `CREATE` is given. The descriptor counter
/// advances once the target is settled, and the open fails with `TooManyOpenFiles` when
/// `MAX_OPEN_FILES` handles are open. With `APPEND` the position starts at the end.
pub fn open(vfs: &mut VfsState, file_path: &str, flags: OpenFlags) -> (r: FsResult<u32>)
    requires
        old(vfs).wf(),
    ensures
        final(vfs).wf(),
        open_outcome(*old(vfs), *final(vfs), file_path@, flags, r),
{
    let resolved = resolve_path(vfs, file_path);
    let ghost m = vfs.fs@;
    let ghost root = vfs.fs.root_id();
    let ghost next = vfs.fs.next_id();
    let ghost mut created: FsResult<u64> = Err(FsError::NotFound);
    let ghost mut did_create = false;
    let inode_id = match vfs.fs.lookup(resolved.as_str()) {
        Ok(id) => {
            let inode = match vfs.fs.get(id) {
                Ok(i) => i,
                Err(e) => {
                    return Err(e);
                },
            };
            if inode.inode_type == InodeType::Directory {
                return Err(FsError::IsADirectory);
            }
            if flags.contains(OPEN_TRUNC) && flags.contains(OPEN_WRITE) {
                match vfs.fs.truncate(id, 0) {
                    Ok(()) => {},
                    Err(e) => {
                        return Err(e);
                    },
                }
            }
            id
        },
        Err(e0) => {
            if !(e0 == FsError::NotFound && flags.contains(OPEN_CREATE)) {
                return Err(e0);
            }
            let (parent_path, filename) = path::split(resolved.as_str());
            if filename.unicode_len() == 0 {
                return Err(FsError::InvalidPath);
            }
            let cr = vfs.fs.create_file(parent_path.as_str(), filename.as_str(), DEFAULT_UID, DEFAULT_GID);
            proof {
                created = cr;
                did_create = true;
            }
            match cr {
                Ok(id) => id,
                Err(e) => {
                    assert(parent_path@ == split_spec(resolved@).0);
                    assert(filename@ == split_spec(resolved@).1);
                    assert(create_spec(m, root, next, split_spec(resolved@).0, split_spec(resolved@).1, InodeType::File, DEFAULT_UID, DEFAULT_GID, created, vfs.fs@));
                    return Err(e);
                },
            }
        },
    };
    let ghost before = *vfs;
    let r = finish_open(vfs, inode_id, flags);
    proof {
        if did_create {
            assert(create_spec(m, root, next, split_spec(resolve_spec(old(vfs).cwd(), file_path@)).0,
                split_spec(resolve_spec(old(vfs).cwd(), file_path@)).1, InodeType::File, DEFAULT_UID, DEFAULT_GID, created, vfs.fs@));
        }
    }
    r
}

/// The handle table after a successful open of inode `id`.
pub open spec fn opened(old_vfs: VfsState, new_vfs: VfsState, id: u64, flags: OpenFlags, r: FsResult<u32>) -> bool {
    &&& new_vfs.next_fd() == old_vfs.next_fd().wrapping_add(1)
    &&& if old_vfs.handles().len() >= MAX_OPEN_FILES {
        r == Err::<u32, FsError>(FsError::TooManyOpenFiles) && new_vfs.handles() == old_vfs.handles()
    } else if flags.has(OPEN_APPEND) && !new_vfs.fs@.contains_key(id) {
        r == Err::<u32, FsError>(FsError::NotFound) && new_vfs.handles() == old_vfs.handles()
    } else {
        &&& r == Ok::<u32, FsError>(old_vfs.next_fd())
        &&& new_vfs.handles() == old_vfs.handles().insert(old_vfs.next_fd(), FileHandle {
            inode_id: id,
            position: if flags.has(OPEN_APPEND) { new_vfs.fs@[id].size } else { 0 },
            flags,
        })
    }
}

/// Descriptors are handed out in increasing order from 3: while the counter has not
/// wrapped, an open that succeeds returns the counter, a descriptor not in use, and
/// every descriptor in use stays at least 3 and below the counter; the new handle
/// is on the opened file, at its end with APPEND and at its start otherwise.
pub proof fn law_open_descriptor(pre: VfsState, post: VfsState, id: u64, flags: OpenFlags, fd: u32)
    requires
        opened(pre, post, id, flags, Ok(fd)),
        3 <= pre.next_fd() < u32::MAX,
        forall|k: u32| #[trigger] pre.handles().contains_key(k) ==> 3 <= k < pre.next_fd(),
    ensures
        fd == pre.next_fd(),
        fd >= 3,
        !pre.handles().contains_key(fd),
        post.next_fd() == fd + 1,
        forall|k: u32| #[trigger] post.handles().contains_key(k) ==> 3 <= k < post.next_fd(),
        post.handles()[fd].inode_id == id,
        post.handles()[fd].position == (if flags.has(OPEN_APPEND) { post.fs@[id].size } else { 0 }),
{
}

fn finish_open(vfs: &mut VfsState, inode_id: u64, flags: OpenFlags) -> (r: FsResult<u32>)
    requires
        old(vfs).wf(),
    ensures
        final(vfs).wf(),
        final(vfs).fs@ == old(vfs).fs@,
        final(vfs).fs.root_id() == old(vfs).fs.root_id(),
        final(vfs).fs.next_id() == old(vfs).fs.next_id(),
        final(vfs).cwd() == old(vfs).cwd(),
        opened(*old(vfs), *final(vfs), inode_id, flags, r),
        r is Err ==> final(vfs).handles() == old(vfs).handles(),
{
    let fd = vfs.next_fd;
    vfs.next_fd = vfs.next_fd.wrapping_add(1);
    if vfs.handles.len() >= MAX_OPEN_FILES {
        return Err(FsError::TooManyOpenFiles);
    }
    let position = if flags.contains(OPEN_APPEND) {
        match vfs.fs.get(inode_id) {
            Ok(i) => i.size,
            Err(e) => {
                return Err(e);
            },
        }
    } else {
        0
    };
    vfs.handles.insert(fd, FileHandle { inode_id, position, flags });
    Ok(fd)
}

/// The outcome of closing `fd`: the result `r` and, where the state
/// changes, the state after (`post`) in terms of the state before (`pre`).
pub open spec fn close_outcome(pre: VfsState, post: VfsState, fd: u32, r: FsResult<()>) -> bool {
    &&& post.fs@ == pre.fs@
    &&& post.cwd() == pre.cwd()
    &&& post.next_fd() == pre.next_fd()
    &&& pre.handles().contains_key(fd) ==> r is Ok && post.handles() == pre.handles().remove(fd)
    &&& !pre.handles().contains_key(fd) ==> r == Err::<(), FsError>(FsError::InvalidFd)
        && post.handles() == pre.handles()
}

/// Close a file
pub fn close(vfs: &mut VfsState, fd: u32) -> (r: FsResult<()>)
    requires
        old(vfs).wf(),
    ensures
        final(vfs).wf(),
        close_outcome(*old(vfs), *final(vfs), fd, r),
{
    match vfs.handles.remove(&fd) {
        Some(_) => Ok(()),
        None => {
            assert(vfs.handles@ =~= old(vfs).handles@);
            Err(FsError::InvalidFd)
        },
    }
}

/// The outcome of reading from `fd` into a buffer (`pre_buf` before, `post_buf` after): the result `r` and, where the state
/// changes, the state after (`post`) in terms of the state before (`pre`).
pub open spec fn read_outcome(pre: VfsState, post: VfsState, fd: u32, pre_buf: Seq<u8>, post_buf: Seq<u8>, r: FsResult<usize>) -> bool {
    &&& post.fs@ == pre.fs@
    &&& post.cwd() == pre.cwd()
    &&& post.next_fd() == pre.next_fd()
    &&& !pre.handles().contains_key(fd) ==> r == Err::<usize, FsError>(FsError::InvalidFd)
        && post_buf == pre_buf && post.handles() == pre.handles()
    &&& pre.handles().contains_key(fd) ==> ({
        let h = pre.handles()[fd];
        let m = pre.fs@;
        if !h.flags.has(OPEN_READ) {
            r == Err::<usize, FsError>(FsError::PermissionDenied) && post_buf == pre_buf
                && post.handles() == pre.handles()
        } else if !m.contains_key(h.inode_id) {
            r == Err::<usize, FsError>(FsError::NotFound) && post_buf == pre_buf
                && post.handles() == pre.handles()
        } else if m[h.inode_id].inode_type == InodeType::Directory {
            r == Err::<usize, FsError>(FsError::IsADirectory) && post_buf == pre_buf
                && post.handles() == pre.handles()
        } else {
            let n = read_len(m[h.inode_id].size as int, h.position as int, pre_buf.len() as int);
            &&& r == Ok::<usize, FsError>(n as usize)
            &&& post_buf == read_into(m[h.inode_id].data, m[h.inode_id].size as int, h.position as int, pre_buf)
            &&& post.handles() == pre.handles().insert(fd, FileHandle { position: (h.position + n) as usize, ..h })
        }
    })
}

/// Read from an open file at its position, advancing the position by the bytes read.
pub fn read(vfs: &mut VfsState, fd: u32, buf: &mut [u8]) -> (r: FsResult<usize>)
    requires
        old(vfs).wf(),
    ensures
        final(vfs).wf(),
        read_outcome(*old(vfs), *final(vfs), fd, old(buf)@, final(buf)@, r),
{
    let handle = match vfs.handles.get(&fd) {
        Some(h) => *h,
        None => {
            return Err(FsError::InvalidFd);
        },
    };
    if !handle.flags.contains(OPEN_READ) {
        return Err(FsError::PermissionDenied);
    }
    let bytes_read = match vfs.fs.read(handle.inode_id, handle.position, buf) {
        Ok(n) => n,
        Err(e) => {
            return Err(e);
        },
    };
    vfs.handles.insert(fd, FileHandle { position: handle.position + bytes_read, ..handle });
    Ok(bytes_read)
}

/// The outcome of writing `data` to `fd`: the result `r` and, where the state
/// changes, the state after (`post`) in terms of the state before (`pre`).
pub open spec fn write_outcome(pre: VfsState, post: VfsState, fd: u32, data: Seq<u8>, r: FsResult<usize>) -> bool {
    &&& post.cwd() == pre.cwd()
    &&& post.next_fd() == pre.next_fd()
    &&& !pre.handles().contains_key(fd) ==> r == Err::<usize, FsError>(FsError::InvalidFd)
        && post.fs@ == pre.fs@ && post.handles() == pre.handles()
    &&& pre.handles().contains_key(fd) ==> ({
        let h = pre.handles()[fd];
        let m = pre.fs@;
        let end = h.position + data.len();
        if !h.flags.has(OPEN_WRITE) {
            r == Err::<usize, FsError>(FsError::PermissionDenied) && post.fs@ == m
                && post.handles() == pre.handles()
        } else if end > usize::MAX {
            r == Err::<usize, FsError>(FsError::NoSpace) && post.fs@ == m
                && post.handles() == pre.handles()
        } else if !m.contains_key(h.inode_id) {
            r == Err::<usize, FsError>(FsError::NotFound) && post.fs@ == m
                && post.handles() == pre.handles()
        } else if m[h.inode_id].inode_type == InodeType::Directory {
            r == Err::<usize, FsError>(FsError::IsADirectory) && post.fs@ == m
                && post.handles() == pre.handles()
        } else if end > MAX_FILE_SIZE {
            r == Err::<usize, FsError>(FsError::NoSpace) && post.fs@ == m
                && post.handles() == pre.handles()
        } else {
            let old_i = m[h.inode_id];
            &&& r == Ok::<usize, FsError>(data.len() as usize)
            &&& post.fs@ == m.insert(h.inode_id, InodeView {
                data: written_data(old_i.data, h.position as int, data),
                size: (if old_i.size > end { old_i.size as int } else { end }) as usize,
                ..old_i
            })
            &&& post.handles() == pre.handles().insert(fd, FileHandle { position: end as usize, ..h })
        }
    })
}

/// Write to an open file at its position, advancing the position by the bytes written.
///
/// A write whose end would not fit in a `usize` is refused with `NoSpace`.
pub fn write(vfs: &mut VfsState, fd: u32, data: &[u8]) -> (r: FsResult<usize>)
    requires
        old(vfs).wf(),
    ensures
        final(vfs).wf(),
        write_outcome(*old(vfs), *final(vfs), fd, data@, r),
{
    let handle = match vfs.handles.get(&fd) {
        Some(h) => *h,
        None => {
            return Err(FsError::InvalidFd);
        },
    };
    if !handle.flags.contains(OPEN_WRITE) {
        return Err(FsError::PermissionDenied);
    }
    if handle.position > usize::MAX - data.len() {
        return Err(FsError::NoSpace);
    }
    let bytes_written = match vfs.fs.write(handle.inode_id, handle.position, data) {
        Ok(n) => n,
        Err(e) => {
            return Err(e);
        },
    };
    vfs.handles.insert(fd, FileHandle { position: handle.position + bytes_written, ..handle });
    Ok(bytes_written)
}

/// Position that a seek asks for, or `None` when it does not fit in a `usize`.
pub open spec fn seek_target(pos: SeekFrom, size: int, current: int) -> Option<int> {
    let p = match pos {
        SeekFrom::Start(off) => off as int,
        SeekFrom::End(off) => if off < 0 { if size + off < 0 { 0 } else { size + off } } else { size + off },
        SeekFrom::Current(off) => if off < 0 { if current + off < 0 { 0 } else { current + off } } else { current + off },
    };
    if p <= usize::MAX { Some(p) } else { None }
}

/// The outcome of moving the position of `fd`: the result `r` and, where the state
/// changes, the state after (`post`) in terms of the state before (`pre`).
pub open spec fn seek_outcome(pre: VfsState, post: VfsState, fd: u32, pos: SeekFrom, r: FsResult<u64>) -> bool {
    &&& post.fs@ == pre.fs@
    &&& post.cwd() == pre.cwd()
    &&& post.next_fd() == pre.next_fd()
    &&& !pre.handles().contains_key(fd) ==> r == Err::<u64, FsError>(FsError::InvalidFd)
        && post.handles() == pre.handles()
    &&& pre.handles().contains_key(fd) ==> ({
        let h = pre.handles()[fd];
        let m = pre.fs@;
        if !m.contains_key(h.inode_id) {
            r == Err::<u64, FsError>(FsError::NotFound) && post.handles() == pre.handles()
        } else {
            match seek_target(pos, m[h.inode_id].size as int, h.position as int) {
                Some(p) => r == Ok::<u64, FsError>(p as u64)
                    && post.handles() == pre.handles().insert(fd, FileHandle { position: p as usize, ..h }),
                None => r == Err::<u64, FsError>(FsError::InvalidArgument) && post.handles() == pre.handles(),
            }
        }
    })
}

/// Move the position of an open file; returns the new position.
///
/// Backward seeks stop at 0; a target beyond `usize::MAX` is refused with `InvalidArgument`.
pub fn seek(vfs: &mut VfsState, fd: u32, pos: SeekFrom) -> (r: FsResult<u64>)
    requires
        old(vfs).wf(),
    ensures
        final(vfs).wf(),
        seek_outcome(*old(vfs), *final(vfs), fd, pos, r),
{
    let handle = match vfs.handles.get(&fd) {
        Some(h) => *h,
        None => {
            return Err(FsError::InvalidFd);
        },
    };
    let size = match vfs.fs.get(handle.inode_id) {
        Ok(i) => i.size,
        Err(e) => {
            return Err(e);
        },
    };
    let new_pos: usize = match pos {
        SeekFrom::Start(offset) => {
            if offset > usize::MAX as u64 {
                return Err(FsError::InvalidArgument);
            }
            offset as usize
        },
        SeekFrom::End(offset) => {
            if offset < 0 {
                let back: u64 = (0i128 - offset as i128) as u64;
                if back as u128 >= size as u128 { 0 } else { size - back as usize }
            } else {
                let fwd = offset as u64;
                if fwd as u128 + size as u128 > usize::MAX as u128 {
                    return Err(FsError::InvalidArgument);
                }
                size + fwd as usize
            }
        },
        SeekFrom::Current(offset) => {
            if offset < 0 {
                let back: u64 = (0i128 - offset as i128) as u64;
                if back as u128 >= handle.position as u128 { 0 } else { handle.position - back as usize }
            } else {
                let fwd = offset as u64;
                if fwd as u128 + handle.position as u128 > usize::MAX as u128 {
                    return Err(FsError::InvalidArgument);
                }
                handle.position + fwd as usize
            }
        },
    };
    vfs.handles.insert(fd, FileHandle { position: new_pos, ..handle });
    Ok(new_pos as u64)
}


/// Converts bytes to a string when they are valid UTF-8.
#[verifier::external_body]
pub(crate) fn string_from_utf8(bytes: Vec<u8>) -> (r: Option<String>)
    ensures
        match r {
            Some(s) => valid_utf8(bytes@) && s@ == decode_utf8(bytes@),
            None => !valid_utf8(bytes@),
        },
{
    String::from_utf8(bytes).ok()
}

/// The outcome of making the directory `path`: the result `r` and, where the state
/// changes, the state after (`post`) in terms of the state before (`pre`).
pub open spec fn mkdir_outcome(pre: VfsState, post: VfsState, path: Seq<char>, r: FsResult<()>) -> bool {
    &&& post.cwd() == pre.cwd()
    &&& post.handles() == pre.handles()
    &&& post.next_fd() == pre.next_fd()
    &&& ({
        let (parent, name) = split_spec(resolve_spec(pre.cwd(), path));
        if name.len() == 0 {
            r == Err::<(), FsError>(FsError::InvalidPath) && post.fs@ == pre.fs@
        } else {
            exists|cr: FsResult<u64>|
                #[trigger] create_spec(pre.fs@, pre.fs.root_id(), pre.fs.next_id(), parent, name,
                    InodeType::Directory, DEFAULT_UID, DEFAULT_GID, cr, post.fs@)
                && match cr {
                    Ok(_) => r == Ok::<(), FsError>(()),
                    Err(e) => r == Err::<(), FsError>(e),
                }
        }
    })
}

/// Create a directory (owned by the default user).
pub fn mkdir(vfs: &mut VfsState, dir_path: &str) -> (r: FsResult<()>)
    requires
        old(vfs).wf(),
    ensures
        final(vfs).wf(),
        mkdir_outcome(*old(vfs), *final(vfs), dir_path@, r),
{
    let resolved = resolve_path(vfs, dir_path);
    let (parent_path, dirname) = path::split(resolved.as_str());
    if dirname.unicode_len() == 0 {
        return Err(FsError::InvalidPath);
    }
    let ghost m = vfs.fs@;
    let ghost root = vfs.fs.root_id();
    let ghost next = vfs.fs.next_id();
    let cr = vfs.fs.create_dir(parent_path.as_str(), dirname.as_str(), DEFAULT_UID, DEFAULT_GID);
    assert(create_spec(m, root, next, split_spec(resolved@).0, split_spec(resolved@).1, InodeType::Directory,
        DEFAULT_UID, DEFAULT_GID, cr, vfs.fs@));
    match cr {
        Ok(_) => Ok(()),
        Err(e) => Err(e),
    }
}

/// The outcome of removing the directory `path`: the result `r` and, where the state
/// changes, the state after (`post`) in terms of the state before (`pre`).
pub open spec fn rmdir_outcome(pre: VfsState, post: VfsState, path: Seq<char>, r: FsResult<()>) -> bool {
    &&& post.cwd() == pre.cwd()
    &&& post.handles() == pre.handles()
    &&& post.next_fd() == pre.next_fd()
    &&& ({
        let p = resolve_spec(pre.cwd(), path);
        let m = pre.fs@;
        match lookup_spec(m, pre.fs.root_id(), p) {
            Err(e) => r == Err::<(), FsError>(e) && post.fs@ == m,
            Ok(id) => if !m.contains_key(id) {
                r == Err::<(), FsError>(FsError::NotFound) && post.fs@ == m
            } else if m[id].inode_type != InodeType::Directory {
                r == Err::<(), FsError>(FsError::NotADirectory) && post.fs@ == m
            } else if m[id].children.len() > 0 {
                r == Err::<(), FsError>(FsError::NotEmpty) && post.fs@ == m
            } else {
                remove_spec(m, pre.fs.root_id(), p, r, post.fs@)
            },
        }
    })
}

/// Remove an empty directory
pub fn rmdir(vfs: &mut VfsState, dir_path: &str) -> (r: FsResult<()>)
    requires
        old(vfs).wf(),
    ensures
        final(vfs).wf(),
        rmdir_outcome(*old(vfs), *final(vfs), dir_path@, r),
{
    let resolved = resolve_path(vfs, dir_path);
    vfs.fs.rmdir(resolved.as_str())
}

/// The outcome of removing the file `path`: the result `r` and, where the state
/// changes, the state after (`post`) in terms of the state before (`pre`).
pub open spec fn unlink_outcome(pre: VfsState, post: VfsState, path: Seq<char>, r: FsResult<()>) -> bool {
    &&& post.cwd() == pre.cwd()
    &&& post.handles() == pre.handles()
    &&& post.next_fd() == pre.next_fd()
    &&& ({
        let p = resolve_spec(pre.cwd(), path);
        let m = pre.fs@;
        match lookup_spec(m, pre.fs.root_id(), p) {
            Err(e) => r == Err::<(), FsError>(e) && post.fs@ == m,
            Ok(id) => if !m.contains_key(id) {
                r == Err::<(), FsError>(FsError::NotFound) && post.fs@ == m
            } else if m[id].inode_type == InodeType::Directory {
                r == Err::<(), FsError>(FsError::IsADirectory) && post.fs@ == m
            } else {
                remove_spec(m, pre.fs.root_id(), p, r, post.fs@)
            },
        }
    })
}

/// Remove a file
pub fn unlink(vfs: &mut VfsState, file_path: &str) -> (r: FsResult<()>)
    requires
        old(vfs).wf(),
    ensures
        final(vfs).wf(),
        unlink_outcome(*old(vfs), *final(vfs), file_path@, r),
{
    let resolved = resolve_path(vfs, file_path);
    vfs.fs.unlink(resolved.as_str())
}

/// The outcome of the metadata of `path`: the result `r` and, where the state
/// changes, the state after (`post`) in terms of the state before (`pre`).
pub open spec fn stat_outcome(st: VfsState, path: Seq<char>, r: FsResult<Stat>) -> bool {
    &&& match lookup_spec(st.fs@, st.fs.root_id(), resolve_spec(st.cwd(), path)) {
        Err(e) => r == Err::<Stat, FsError>(e),
        Ok(id) => if st.fs@.contains_key(id) {
            r == Ok::<Stat, FsError>(st.fs@[id].stat())
        } else {
            r == Err::<Stat, FsError>(FsError::NotFound)
        },
    }
}

/// Get file/directory metadata
pub fn stat(vfs: &VfsState, file_path: &str) -> (r: FsResult<Stat>)
    requires
        vfs.wf(),
    ensures
        stat_outcome(*vfs, file_path@, r),
{
    let resolved = resolve_path(vfs, file_path);
    vfs.fs.stat(resolved.as_str())
}

/// The outcome of listing the directory `path`: the result `r` and, where the state
/// changes, the state after (`post`) in terms of the state before (`pre`).
pub open spec fn readdir_outcome(st: VfsState, path: Seq<char>, r: FsResult<Vec<DirEntry>>) -> bool {
    &&& match lookup_spec(st.fs@, st.fs.root_id(), resolve_spec(st.cwd(), path)) {
        Err(e) => r == Err::<Vec<DirEntry>, FsError>(e),
        Ok(id) => if !st.fs@.contains_key(id) {
            r matches Err(FsError::NotFound)
        } else if st.fs@[id].inode_type != InodeType::Directory {
            r matches Err(FsError::NotADirectory)
        } else {
            r matches Ok(v) && {
                &&& sorted_by_name(entry_views(v@))
                &&& entry_views(v@).to_multiset() == child_entries(st.fs@, st.fs@[id].children).to_multiset()
            }
        },
    }
}

/// Read directory contents, sorted by name
pub fn readdir(vfs: &VfsState, dir_path: &str) -> (r: FsResult<Vec<DirEntry>>)
    requires
        vfs.wf(),
    ensures
        readdir_outcome(*vfs, dir_path@, r),
{
    let resolved = resolve_path(vfs, dir_path);
    let inode_id = match vfs.fs.lookup(resolved.as_str()) {
        Ok(i) => i,
        Err(e) => {
            return Err(e);
        },
    };
    vfs.fs.readdir(inode_id)
}

/// The outcome of changing to the directory `path`: the result `r` and, where the state
/// changes, the state after (`post`) in terms of the state before (`pre`).
pub open spec fn chdir_outcome(pre: VfsState, post: VfsState, path: Seq<char>, r: FsResult<()>) -> bool {
    &&& post.fs@ == pre.fs@
    &&& post.handles() == pre.handles()
    &&& post.next_fd() == pre.next_fd()
    &&& ({
        let p = resolve_spec(pre.cwd(), path);
        let m = pre.fs@;
        match lookup_spec(m, pre.fs.root_id(), p) {
            Err(e) => r == Err::<(), FsError>(e) && post.cwd() == pre.cwd(),
            Ok(id) => if !m.contains_key(id) {
                r == Err::<(), FsError>(FsError::NotFound) && post.cwd() == pre.cwd()
            } else if m[id].inode_type != InodeType::Directory {
                r == Err::<(), FsError>(FsError::NotADirectory) && post.cwd() == pre.cwd()
            } else {
                r == Ok::<(), FsError>(()) && post.cwd() == p
            },
        }
    })
}

/// Change current working directory
pub fn chdir(vfs: &mut VfsState, dir_path: &str) -> (r: FsResult<()>)
    requires
        old(vfs).wf(),
    ensures
        final(vfs).wf(),
        chdir_outcome(*old(vfs), *final(vfs), dir_path@, r),
{
    let resolved = resolve_path(vfs, dir_path);
    let inode_id = match vfs.fs.lookup(resolved.as_str()) {
        Ok(i) => i,
        Err(e) => {
            return Err(e);
        },
    };
    let is_dir = match vfs.fs.get(inode_id) {
        Ok(inode) => inode.inode_type == InodeType::Directory,
        Err(e) => {
            return Err(e);
        },
    };
    if !is_dir {
        return Err(FsError::NotADirectory);
    }
    vfs.cwd = resolved;
    Ok(())
}

/// Get current working directory
pub fn getcwd(vfs: &VfsState) -> (r: FsResult<String>)
    ensures
        r matches Ok(s) && s@ == vfs.cwd(),
{
    Ok(vfs.cwd.clone())
}

/// The outcome of touching `path`: the result `r` and, where the state
/// changes, the state after (`post`) in terms of the state before (`pre`).
pub open spec fn touch_outcome(pre: VfsState, post: VfsState, path: Seq<char>, r: FsResult<()>) -> bool {
    &&& post.cwd() == pre.cwd()
    &&& post.handles() == pre.handles()
    &&& post.next_fd() == pre.next_fd()
    &&& ({
        let p = resolve_spec(pre.cwd(), path);
        let m = pre.fs@;
        match lookup_spec(m, pre.fs.root_id(), p) {
            Ok(_) => r == Ok::<(), FsError>(()) && post.fs@ == m,
            Err(e) => if e != FsError::NotFound {
                r == Err::<(), FsError>(e) && post.fs@ == m
            } else if split_spec(p).1.len() == 0 {
                r == Err::<(), FsError>(FsError::InvalidPath) && post.fs@ == m
            } else {
                exists|cr: FsResult<u64>|
                    #[trigger] create_spec(m, pre.fs.root_id(), pre.fs.next_id(), split_spec(p).0, split_spec(p).1,
                        InodeType::File, DEFAULT_UID, DEFAULT_GID, cr, post.fs@)
                    && match cr {
                        Ok(_) => r == Ok::<(), FsError>(()),
                        Err(ce) => r == Err::<(), FsError>(ce),
                    }
            },
        }
    })
}

/// Create an empty file if nothing exists at the path (owned by the default user).
pub fn touch(vfs: &mut VfsState, file_path: &str) -> (r: FsResult<()>)
    requires
        old(vfs).wf(),
    ensures
        final(vfs).wf(),
        touch_outcome(*old(vfs), *final(vfs), file_path@, r),
{
    let resolved = resolve_path(vfs, file_path);
    match vfs.fs.lookup(resolved.as_str()) {
        Ok(_) => Ok(()),
        Err(e) => {
            if e != FsError::NotFound {
                return Err(e);
            }
            let (parent_path, filename) = path::split(resolved.as_str());
            if filename.unicode_len() == 0 {
                return Err(FsError::InvalidPath);
            }
            let ghost m = vfs.fs@;
            let ghost root = vfs.fs.root_id();
            let ghost next = vfs.fs.next_id();
            let cr = vfs.fs.create_file(parent_path.as_str(), filename.as_str(), DEFAULT_UID, DEFAULT_GID);
            assert(create_spec(m, root, next, split_spec(resolved@).0, split_spec(resolved@).1, InodeType::File,
                DEFAULT_UID, DEFAULT_GID, cr, vfs.fs@));
            match cr {
                Ok(_) => Ok(()),
                Err(ce) => Err(ce),
            }
        },
    }
}

/// Read an entire file as UTF-8 text.
pub fn read_to_string(vfs: &VfsState, file_path: &str) -> (r: FsResult<String>)
    requires
        vfs.wf(),
    ensures
        match lookup_spec(vfs.fs@, vfs.fs.root_id(), resolve_spec(vfs.cwd(), file_path@)) {
            Err(e) => r == Err::<String, FsError>(e),
            Ok(id) => if !vfs.fs@.contains_key(id) {
                r == Err::<String, FsError>(FsError::NotFound)
            } else if vfs.fs@[id].inode_type == InodeType::Directory {
                r == Err::<String, FsError>(FsError::IsADirectory)
            } else if !valid_utf8(vfs.fs@[id].data) {
                r == Err::<String, FsError>(FsError::IoError)
            } else {
                r matches Ok(s) && s@ == decode_utf8(vfs.fs@[id].data)
            },
        },
{
    let resolved = resolve_path(vfs, file_path);
    let inode_id = match vfs.fs.lookup(resolved.as_str()) {
        Ok(i) => i,
        Err(e) => {
            return Err(e);
        },
    };
    let size = match vfs.fs.get(inode_id) {
        Ok(inode) => {
            if inode.inode_type == InodeType::Directory {
                return Err(FsError::IsADirectory);
            }
            inode.size
        },
        Err(e) => {
            return Err(e);
        },
    };
    let mut buf: Vec<u8> = vec![0u8; size];
    let ghost before = buf@;
    proof {
        vfs.fs.lemma_inode_facts(inode_id);
    }
    let rr = vfs.fs.read(inode_id, 0, buf.as_mut_slice());
    proof {
        let d = vfs.fs@[inode_id].data;
        if size == 0 {
            assert(buf@ =~= d);
        } else {
            assert(buf@ =~= d.subrange(0, size as int) + before.subrange(size as int, size as int));
            assert(buf@ =~= d);
        }
    }
    match string_from_utf8(buf) {
        Some(s) => Ok(s),
        None => Err(FsError::IoError),
    }
}

/// Outcome of replacing the contents of the existing file `id` of `m` by `bytes`.
pub open spec fn stored(m: FsMap, id: u64, bytes: Seq<u8>, r: FsResult<()>, new: FsMap) -> bool {
    if bytes.len() > MAX_FILE_SIZE {
        r == Err::<(), FsError>(FsError::NoSpace) && new == m.insert(id, InodeView { data: Seq::empty(), size: 0, ..m[id] })
    } else {
        r == Ok::<(), FsError>(()) && new == m.insert(id, InodeView { data: bytes, size: bytes.len() as usize, ..m[id] })
    }
}

/// A string written into an existing file is what reading the file as text gives
/// back: the path still names the file, whose bytes are the string's UTF-8 encoding
/// and decode to the string.
pub proof fn law_write_then_read_string(m: FsMap, root: u64, p: Seq<char>, id: u64, content: Seq<char>, new: FsMap)
    requires
        lookup_spec(m, root, p) == Ok::<u64, FsError>(id),
        m.contains_key(id),
        m[id].inode_type != InodeType::Directory,
        encode_utf8(content).len() <= MAX_FILE_SIZE,
        stored(m, id, encode_utf8(content), Ok(()), new),
    ensures
        lookup_spec(new, root, p) == Ok::<u64, FsError>(id),
        new.contains_key(id),
        new[id].inode_type != InodeType::Directory,
        new[id].size == encode_utf8(content).len(),
        valid_utf8(new[id].data),
        decode_utf8(new[id].data) == content,
{
    let bytes = encode_utf8(content);
    super::ramfs::lemma_lookup_keeps(m, root, p, id, InodeView { data: bytes, size: bytes.len() as usize, ..m[id] });
    encode_utf8_valid_utf8(content);
    encode_utf8_decode_utf8(content);
}

/// A string written to a path that named nothing is what reading it as text gives
/// back: the file created under the path's parent is then found at the path, and its
/// bytes decode to the string (for a last component other than `.` and `..`).
pub proof fn law_create_write_then_read_string(fs: RamFs, p: Seq<char>, content: Seq<char>, uid: u32, gid: u32,
    cr: FsResult<u64>, mid: FsMap, new: FsMap)
    requires
        fs.wf(),
        split_spec(p).1.len() > 0,
        !path::is_dot(split_spec(p).1),
        !path::is_dotdot(split_spec(p).1),
        create_spec(fs@, fs.root_id(), fs.next_id(), split_spec(p).0, split_spec(p).1, InodeType::File, uid, gid, cr, mid),
        cr is Ok,
        encode_utf8(content).len() <= MAX_FILE_SIZE,
        stored(mid, cr->Ok_0, encode_utf8(content), Ok(()), new),
    ensures
        lookup_spec(new, fs.root_id(), p) == Ok::<u64, FsError>(cr->Ok_0),
        new[cr->Ok_0].inode_type == InodeType::File,
        valid_utf8(new[cr->Ok_0].data),
        decode_utf8(new[cr->Ok_0].data) == content,
{
    let root = fs.root_id();
    let id = cr->Ok_0;
    let (d, n) = split_spec(p);
    path::law_split(p);
    super::ramfs::law_create_then_lookup(fs, d, n, InodeType::File, uid, gid, cr, mid);
    assert(normalize_spec(p) != seq!['/']);
    assert(lookup_spec(mid, root, join_input(d, n)) == lookup_spec(mid, root, p));
    let bytes = encode_utf8(content);
    super::ramfs::lemma_lookup_keeps(mid, root, p, id, InodeView { data: bytes, size: bytes.len() as usize, ..mid[id] });
    encode_utf8_valid_utf8(content);
    encode_utf8_decode_utf8(content);
}

/// Write a string to a file, creating it or replacing its contents.
pub fn write_string(vfs: &mut VfsState, file_path: &str, content: &str) -> (r: FsResult<()>)
    requires
        old(vfs).wf(),
    ensures
        final(vfs).wf(),
        final(vfs).cwd() == old(vfs).cwd(),
        final(vfs).handles() == old(vfs).handles(),
        final(vfs).next_fd() == old(vfs).next_fd(),
        final(vfs).fs.root_id() == old(vfs).fs.root_id(),
        ({
            let p = resolve_spec(old(vfs).cwd(), file_path@);
            let m = old(vfs).fs@;
            let bytes = content.spec_bytes();
            match lookup_spec(m, old(vfs).fs.root_id(), p) {
                Ok(id) => if !m.contains_key(id) {
                    r == Err::<(), FsError>(FsError::NotFound) && final(vfs).fs@ == m
                } else if m[id].inode_type == InodeType::Directory {
                    r == Err::<(), FsError>(FsError::IsADirectory) && final(vfs).fs@ == m
                } else {
                    stored(m, id, bytes, r, final(vfs).fs@)
                },
                Err(e) => if e != FsError::NotFound {
                    r == Err::<(), FsError>(e) && final(vfs).fs@ == m
                } else if split_spec(p).1.len() == 0 {
                    r == Err::<(), FsError>(FsError::InvalidPath) && final(vfs).fs@ == m
                } else {
                    exists|cr: FsResult<u64>, mid: FsMap|
                        #[trigger] create_spec(m, old(vfs).fs.root_id(), old(vfs).fs.next_id(), split_spec(p).0, split_spec(p).1,
                            InodeType::File, DEFAULT_UID, DEFAULT_GID, cr, mid)
                        && match cr {
                            Ok(id) => stored(mid, id, bytes, r, final(vfs).fs@),
                            Err(ce) => r == Err::<(), FsError>(ce) && final(vfs).fs@ == m,
                        }
                },
            }
        }),
{
    let resolved = resolve_path(vfs, file_path);
    let ghost mut mid: FsMap = vfs.fs@;
    let inode_id = match vfs.fs.lookup(resolved.as_str()) {
        Ok(id) => {
            let is_dir = match vfs.fs.get(id) {
                Ok(inode) => inode.inode_type == InodeType::Directory,
                Err(e) => {
                    return Err(e);
                },
            };
            if is_dir {
                return Err(FsError::IsADirectory);
            }
            proof {
                vfs.fs.lemma_inode_facts(id);
            }
            match vfs.fs.truncate(id, 0) {
                Ok(()) => {},
                Err(e) => {
                    return Err(e);
                },
            }
            proof {
                mid = old(vfs).fs@;
                assert(resized_data(mid[id].data, 0) =~= Seq::<u8>::empty());
                assert(vfs.fs@ =~= mid.insert(id, InodeView { data: Seq::empty(), size: 0, ..mid[id] }));
            }
            id
        },
        Err(e) => {
            if e != FsError::NotFound {
                return Err(e);
            }
            let (parent_path, filename) = path::split(resolved.as_str());
            if filename.unicode_len() == 0 {
                return Err(FsError::InvalidPath);
            }
            let ghost root = vfs.fs.root_id();
            let ghost next = vfs.fs.next_id();
            let ghost m0 = vfs.fs@;
            let cr = vfs.fs.create_file(parent_path.as_str(), filename.as_str(), DEFAULT_UID, DEFAULT_GID);
            proof {
                if cr is Ok {
                    match lookup_spec(m0, root, split_spec(resolved@).0) {
                        Ok(pid) => {
                            old(vfs).fs.lemma_inode_facts(pid);
                        },
                        Err(_) => {},
                    }
                    assert(vfs.fs@ =~= vfs.fs@.insert(next, InodeView { data: Seq::empty(), size: 0, ..vfs.fs@[next] }));
                }
                mid = vfs.fs@;
                assert(create_spec(m0, root, next, split_spec(resolved@).0, split_spec(resolved@).1, InodeType::File,
                    DEFAULT_UID, DEFAULT_GID, cr, mid));
            }
            match cr {
                Ok(id) => id,
                Err(ce) => {
                    return Err(ce);
                },
            }
        },
    };
    let bytes = content.as_bytes();
    assert(vfs.fs@ == mid.insert(inode_id, InodeView { data: Seq::empty(), size: 0, ..mid[inode_id] }));
    if bytes.len() > MAX_FILE_SIZE {
        return Err(FsError::NoSpace);
    }
    match vfs.fs.write(inode_id, 0, bytes) {
        Ok(_) => {},
        Err(e) => {
            return Err(e);
        },
    }
    assert(written_data(Seq::empty(), 0, bytes@) =~= bytes@);
    assert(vfs.fs@ =~= mid.insert(inode_id, InodeView { data: bytes@, size: bytes@.len() as usize, ..mid[inode_id] }));
    Ok(())
}
} // verus!
