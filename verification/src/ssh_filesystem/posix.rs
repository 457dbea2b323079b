//! The numbers of the kernel's interface that the bridge reads, and how the
//! flags and modes of a request are turned into what is asked of the remote
//! side.

use vstd::prelude::*;

verus! {

/// Open for writing only.
pub const O_WRONLY: i32 = 0o1;

/// Open for reading and writing.
pub const O_RDWR: i32 = 0o2;

/// Create the file if it does not exist.
pub const O_CREAT: i32 = 0o100;

/// Fail if the file exists.
pub const O_EXCL: i32 = 0o200;

/// Cut the file to length 0.
pub const O_TRUNC: i32 = 0o1000;

/// Write at the end of the file.
pub const O_APPEND: i32 = 0o2000;

/// The bits of a mode that hold the type of the file.
pub const S_IFMT: u32 = 0o170000;

/// The type bits of a named pipe.
pub const S_IFIFO: u32 = 0o010000;

/// The type bits of a character device.
pub const S_IFCHR: u32 = 0o020000;

/// The type bits of a directory.
pub const S_IFDIR: u32 = 0o040000;

/// The type bits of a block device.
pub const S_IFBLK: u32 = 0o060000;

/// The type bits of a regular file.
pub const S_IFREG: u32 = 0o100000;

/// The type bits of a symbolic link.
pub const S_IFLNK: u32 = 0o120000;

/// The type bits of a socket.
pub const S_IFSOCK: u32 = 0o140000;

/// Seek from the start of the file.
pub const SEEK_SET: i32 = 0;

/// Seek from the current position.
pub const SEEK_CUR: i32 = 1;

/// Seek from the end of the file.
pub const SEEK_END: i32 = 2;

/// Rename only if the new name is free.
pub const RENAME_NOREPLACE: u32 = 1;

/// Exchange the two names.
pub const RENAME_EXCHANGE: u32 = 2;

/// How a remote file is to be opened: the flags of the transport that are
/// asked for, each by its name. What a flag implies on the remote side is
/// the transport's to say.
#[derive(Debug, Clone, Copy, PartialEq, Eq, Structural)]
pub struct OpenFlags {
    pub read: bool,
    pub write: bool,
    pub append: bool,
    pub create: bool,
    pub truncate: bool,
    pub exclusive: bool,
}

/// How the remote side is to rename.
#[derive(Debug, Clone, Copy, PartialEq, Eq, Structural)]
pub struct RenameFlags {
    pub overwrite: bool,
    pub atomic: bool,
    pub native: bool,
}

/// From where a position in a file is counted.
#[derive(Debug, Clone, Copy, PartialEq, Eq, Structural)]
pub enum SeekFrom {
    Start(u64),
    Current(i64),
    End(i64),
}

/// Whether `flags` has a bit of `mask`.
pub open spec fn bit_set(flags: i32, mask: i32) -> bool {
    flags & mask != 0
}

/// What the open flags of a request ask of the remote side. Write-only is
/// looked for first, then read-write; with neither, the file is opened for
/// reading.
pub open spec fn spec_open_flags(flags: i32) -> OpenFlags {
    OpenFlags {
        read: !bit_set(flags, O_WRONLY),
        write: bit_set(flags, O_WRONLY) || bit_set(flags, O_RDWR),
        append: bit_set(flags, O_APPEND),
        create: bit_set(flags, O_CREAT),
        truncate: bit_set(flags, O_TRUNC),
        exclusive: bit_set(flags, O_EXCL),
    }
}

/// What the open flags of a request ask of the remote side.
pub fn open_flags(flags: i32) -> (res: OpenFlags)
    ensures
        res == spec_open_flags(flags),
{
    let wronly = flags & O_WRONLY != 0;
    let rdwr = flags & O_RDWR != 0;
    OpenFlags {
        read: !wronly,
        write: wronly || rdwr,
        append: flags & O_APPEND != 0,
        create: flags & O_CREAT != 0,
        truncate: flags & O_TRUNC != 0,
        exclusive: flags & O_EXCL != 0,
    }
}

/// Whether a node of mode `mode` can be made: only regular files can.
pub open spec fn spec_mknod_allowed(mode: u32) -> bool {
    mode & S_IFMT == S_IFREG
}

/// The mode with which a node is made: the bits that `umask` names are
/// taken out, but never a bit of the file type.
pub open spec fn spec_mknod_mode(mode: u32, umask: u32) -> u32 {
    mode & (!umask | S_IFMT)
}

/// The mode with which a directory is made: the permission bits of `mode`
/// that `umask` does not name.
pub open spec fn spec_mkdir_mode(mode: u32, umask: u32) -> u32 {
    mode & !umask & 0o777
}

/// How the remote side is asked to rename: in its native way, and
/// atomically if the request asks for an exchange.
pub open spec fn spec_rename_flags(flags: u32) -> RenameFlags {
    RenameFlags { overwrite: false, atomic: flags & RENAME_EXCHANGE != 0, native: true }
}

/// Whether a rename may replace what bears the new name.
pub open spec fn spec_rename_replaces(flags: u32) -> bool {
    flags & RENAME_NOREPLACE == 0
}

/// From where `whence` counts `offset`, if `whence` is known.
pub open spec fn spec_seek_from(offset: i64, whence: i32) -> Option<SeekFrom> {
    if whence == SEEK_SET {
        Some(SeekFrom::Start(offset as u64))
    } else if whence == SEEK_CUR {
        Some(SeekFrom::Current(offset))
    } else if whence == SEEK_END {
        Some(SeekFrom::End(offset))
    } else {
        None
    }
}

/// Whether a node of mode `mode` can be made.
pub fn mknod_allowed(mode: u32) -> (res: bool)
    ensures
        res == spec_mknod_allowed(mode),
{
    mode & S_IFMT == S_IFREG
}

/// The mode with which a node is made.
pub fn mknod_mode(mode: u32, umask: u32) -> (res: u32)
    ensures
        res == spec_mknod_mode(mode, umask),
{
    mode & (!umask | S_IFMT)
}

/// The mode with which a directory is made.
pub fn mkdir_mode(mode: u32, umask: u32) -> (res: u32)
    ensures
        res == spec_mkdir_mode(mode, umask),
        res <= 0o777,
{
    let res = mode & !umask & 0o777;
    assert(mode & !umask & 0o777 <= 0o777) by (bit_vector);
    res
}

/// How the remote side is asked to rename.
pub fn rename_flags(flags: u32) -> (res: RenameFlags)
    ensures
        res == spec_rename_flags(flags),
{
    RenameFlags { overwrite: false, atomic: flags & RENAME_EXCHANGE != 0, native: true }
}

/// Whether a rename may replace what bears the new name.
pub fn rename_replaces(flags: u32) -> (res: bool)
    ensures
        res == spec_rename_replaces(flags),
{
    flags & RENAME_NOREPLACE == 0
}

/// The position `offset` as an unsigned number; a negative offset wraps
/// round.
pub fn offset_from_start(offset: i64) -> (res: u64)
    ensures
        res == offset as u64,
{
    #[verifier::truncate]
    (offset as u64)
}

/// From where `whence` counts `offset`, if `whence` is known.
pub fn seek_from(offset: i64, whence: i32) -> (res: Option<SeekFrom>)
    ensures
        res == spec_seek_from(offset, whence),
{
    if whence == SEEK_SET {
        Some(SeekFrom::Start(offset_from_start(offset)))
    } else if whence == SEEK_CUR {
        Some(SeekFrom::Current(offset))
    } else if whence == SEEK_END {
        Some(SeekFrom::End(offset))
    } else {
        None
    }
}

} // verus!
