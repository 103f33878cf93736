//! In-kernel filesystem support: shared types, paths, RamFS, the VFS layer and
//! on-disk format decoding.

pub mod ext4;
pub mod fat32;
pub mod le;
pub mod path;
pub mod permissions;
pub mod ramfs;
pub mod vfs;
pub mod vfs_client;
pub mod vfs_protocol;

use vstd::prelude::*;

verus! {

/// Inode types
#[derive(Debug, Clone, Copy, PartialEq, Eq, Structural)]
pub enum InodeType {
    File,
    Directory,
    Symlink,
}

/// File open flags (a set of bits).
#[derive(Debug, Clone, Copy, PartialEq, Eq, Structural)]
pub struct OpenFlags {
    pub bits: u32,
}

pub const OPEN_READ: u32 = 0b00001;
pub const OPEN_WRITE: u32 = 0b00010;
pub const OPEN_CREATE: u32 = 0b00100;
pub const OPEN_APPEND: u32 = 0b01000;
pub const OPEN_TRUNC: u32 = 0b10000;

impl OpenFlags {
    pub fn read() -> (f: OpenFlags)
        ensures
            f.bits == OPEN_READ,
    {
        OpenFlags { bits: OPEN_READ }
    }

    pub fn write() -> (f: OpenFlags)
        ensures
            f.bits == OPEN_WRITE,
    {
        OpenFlags { bits: OPEN_WRITE }
    }

    pub fn create() -> (f: OpenFlags)
        ensures
            f.bits == OPEN_CREATE,
    {
        OpenFlags { bits: OPEN_CREATE }
    }

    pub fn append() -> (f: OpenFlags)
        ensures
            f.bits == OPEN_APPEND,
    {
        OpenFlags { bits: OPEN_APPEND }
    }

    pub fn trunc() -> (f: OpenFlags)
        ensures
            f.bits == OPEN_TRUNC,
    {
        OpenFlags { bits: OPEN_TRUNC }
    }

    /// Flags made of the known bits of `bits`.
    pub fn from_bits_truncate(bits: u32) -> (f: OpenFlags)
        ensures
            f.bits == bits & 0b11111u32,
    {
        OpenFlags { bits: bits & 0b11111u32 }
    }

    /// Both sets of flags together.
    pub fn union(self, other: OpenFlags) -> (f: OpenFlags)
        ensures
            f.bits == self.bits | other.bits,
    {
        OpenFlags { bits: self.bits | other.bits }
    }

    pub open spec fn has(self, bit: u32) -> bool {
        self.bits & bit == bit
    }

    /// Whether every bit of `other` is set in `self`.
    pub fn contains(&self, other: u32) -> (b: bool)
        ensures
            b == self.has(other),
    {
        self.bits & other == other
    }
}

/// Seek position
#[derive(Debug, Clone, Copy)]
pub enum SeekFrom {
    Start(u64),
    End(i64),
    Current(i64),
}

/// File/directory metadata
#[derive(Debug, Clone, Copy, PartialEq, Eq, Structural)]
pub struct Stat {
    pub inode: u64,
    pub inode_type: InodeType,
    pub size: usize,
    pub permissions: u16,
    pub uid: u32,
    pub gid: u32,
}

/// Directory entry
#[derive(Debug, Clone)]
pub struct DirEntry {
    pub name: String,
    pub inode: u64,
    pub inode_type: InodeType,
    pub size: usize,
}

/// Mathematical value of a directory entry.
pub struct DirEntryView {
    pub name: Seq<char>,
    pub inode: u64,
    pub inode_type: InodeType,
    pub size: usize,
}

impl View for DirEntry {
    type V = DirEntryView;

    open spec fn view(&self) -> DirEntryView {
        DirEntryView { name: self.name@, inode: self.inode, inode_type: self.inode_type, size: self.size }
    }
}

/// Filesystem error types
#[derive(Debug, Clone, Copy, PartialEq, Eq, Structural)]
pub enum FsError {
    /// File or directory not found
    NotFound,
    /// File or directory already exists
    AlreadyExists,
    /// Expected directory, got file
    NotADirectory,
    /// Expected file, got directory
    IsADirectory,
    /// Directory not empty
    NotEmpty,
    /// Permission denied
    PermissionDenied,
    /// Invalid path
    InvalidPath,
    /// No space left
    NoSpace,
    /// Read-only filesystem
    ReadOnly,
    /// Generic I/O error
    IoError,
    /// Invalid file descriptor
    InvalidFd,
    /// Too many open files
    TooManyOpenFiles,
    /// Invalid argument
    InvalidArgument,
    /// Not a recognised filesystem
    InvalidFilesystem,
    /// No filesystem mounted
    NoFilesystem,
    /// Operation not supported
    NotSupported,
}

pub open spec fn fs_error_message(e: FsError) -> &'static str {
    match e {
        FsError::NotFound => "No such file or directory",
        FsError::AlreadyExists => "File exists",
        FsError::NotADirectory => "Not a directory",
        FsError::IsADirectory => "Is a directory",
        FsError::NotEmpty => "Directory not empty",
        FsError::PermissionDenied => "Permission denied",
        FsError::InvalidPath => "Invalid path",
        FsError::NoSpace => "No space left on device",
        FsError::ReadOnly => "Read-only file system",
        FsError::IoError => "I/O error",
        FsError::InvalidFd => "Bad file descriptor",
        FsError::TooManyOpenFiles => "Too many open files",
        FsError::InvalidArgument => "Invalid argument",
        FsError::InvalidFilesystem => "Invalid filesystem",
        FsError::NoFilesystem => "No filesystem",
        FsError::NotSupported => "Operation not supported",
    }
}

impl FsError {
    /// Human-readable description of the error.
    pub fn message(&self) -> (s: &'static str)
        ensures
            s == fs_error_message(*self),
    {
        match self {
            FsError::NotFound => "No such file or directory",
            FsError::AlreadyExists => "File exists",
            FsError::NotADirectory => "Not a directory",
            FsError::IsADirectory => "Is a directory",
            FsError::NotEmpty => "Directory not empty",
            FsError::PermissionDenied => "Permission denied",
            FsError::InvalidPath => "Invalid path",
            FsError::NoSpace => "No space left on device",
            FsError::ReadOnly => "Read-only file system",
            FsError::IoError => "I/O error",
            FsError::InvalidFd => "Bad file descriptor",
            FsError::TooManyOpenFiles => "Too many open files",
            FsError::InvalidArgument => "Invalid argument",
            FsError::InvalidFilesystem => "Invalid filesystem",
            FsError::NoFilesystem => "No filesystem",
            FsError::NotSupported => "Operation not supported",
        }
    }
}

/// Result type for filesystem operations
pub type FsResult<T> = Result<T, FsError>;

} // verus!
