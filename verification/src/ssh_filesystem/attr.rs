//! What the remote side says of a file, and the attributes that the kernel
//! is told.

use crate::ssh_filesystem::errno::Errno;
use crate::ssh_filesystem::posix::{
    S_IFBLK, S_IFCHR, S_IFDIR, S_IFIFO, S_IFLNK, S_IFMT, S_IFREG, S_IFSOCK,
};
use vstd::prelude::*;

verus! {

/// What the remote side says of a file. A field that the server did not
/// send is `None`.
#[derive(Debug, Clone, Copy, PartialEq, Eq, Structural)]
pub struct RemoteStat {
    pub size: Option<u64>,
    pub uid: Option<u32>,
    pub gid: Option<u32>,
    pub perm: Option<u32>,
    pub atime: Option<u64>,
    pub mtime: Option<u64>,
}

/// The type of a file as the transport tells it.
#[derive(Debug, Clone, Copy, PartialEq, Eq, Structural)]
pub enum RemoteFileType {
    NamedPipe,
    CharDevice,
    BlockDevice,
    Directory,
    RegularFile,
    Symlink,
    Socket,
    /// None of the others; the field holds the type bits.
    Other(u64),
}

/// The type of a file as the kernel is told it.
#[derive(Debug, Clone, Copy, PartialEq, Eq, Structural)]
pub enum FileKind {
    NamedPipe,
    CharDevice,
    BlockDevice,
    Directory,
    RegularFile,
    Symlink,
    Socket,
}

/// The attributes of a file as the kernel is told them. Times are in
/// seconds since the epoch.
#[derive(Debug, Clone, Copy, PartialEq, Eq, Structural)]
pub struct FileAttr {
    pub ino: u64,
    pub size: u64,
    pub blocks: u64,
    pub atime: u64,
    pub mtime: u64,
    pub ctime: u64,
    pub crtime: u64,
    pub kind: FileKind,
    pub perm: u16,
    pub nlink: u32,
    pub uid: u32,
    pub gid: u32,
    pub rdev: u32,
    pub blksize: u32,
    pub flags: u32,
}

/// The size of a block in the attributes.
pub const BLOCK_SIZE: u32 = 512;

/// The permission bits that stand in the attributes where the record of the
/// remote side holds no mode. The bridge refuses a file without a mode, as
/// one of unknown type, before it comes to that.
pub const DEFAULT_PERM: u32 = 0o666;

/// The type bits of a mode; a mode that was not sent has none.
pub open spec fn type_bits(perm: Option<u32>) -> u32 {
    match perm {
        Some(p) => p & S_IFMT,
        None => 0,
    }
}

/// The type of the file that the mode `perm` belongs to.
pub open spec fn spec_file_type(perm: Option<u32>) -> RemoteFileType {
    let bits = type_bits(perm);
    if bits == S_IFIFO {
        RemoteFileType::NamedPipe
    } else if bits == S_IFCHR {
        RemoteFileType::CharDevice
    } else if bits == S_IFDIR {
        RemoteFileType::Directory
    } else if bits == S_IFBLK {
        RemoteFileType::BlockDevice
    } else if bits == S_IFREG {
        RemoteFileType::RegularFile
    } else if bits == S_IFLNK {
        RemoteFileType::Symlink
    } else if bits == S_IFSOCK {
        RemoteFileType::Socket
    } else {
        RemoteFileType::Other(bits as u64)
    }
}

/// `ssh2::FileStat::file_type`, on a record that holds `perm` and nothing
/// else. The claim: the type goes by the type bits of the mode, a mode that
/// is absent counts as 0, and bits that name no type come back in `Other`.
#[verifier::external_body]
fn stat_file_type(perm: Option<u32>) -> (res: RemoteFileType)
    ensures
        res == spec_file_type(perm),
{
    let stat = ssh2::FileStat { size: None, uid: None, gid: None, perm, atime: None, mtime: None };
    match stat.file_type() {
        ssh2::FileType::NamedPipe => RemoteFileType::NamedPipe,
        ssh2::FileType::CharDevice => RemoteFileType::CharDevice,
        ssh2::FileType::BlockDevice => RemoteFileType::BlockDevice,
        ssh2::FileType::Directory => RemoteFileType::Directory,
        ssh2::FileType::RegularFile => RemoteFileType::RegularFile,
        ssh2::FileType::Symlink => RemoteFileType::Symlink,
        ssh2::FileType::Socket => RemoteFileType::Socket,
        ssh2::FileType::Other(bits) => RemoteFileType::Other(bits),
    }
}

/// The type that the kernel is told for a type of the transport; there is
/// none for `Other`.
pub open spec fn spec_file_kind(t: RemoteFileType) -> Result<FileKind, Errno> {
    match t {
        RemoteFileType::NamedPipe => Ok(FileKind::NamedPipe),
        RemoteFileType::CharDevice => Ok(FileKind::CharDevice),
        RemoteFileType::BlockDevice => Ok(FileKind::BlockDevice),
        RemoteFileType::Directory => Ok(FileKind::Directory),
        RemoteFileType::RegularFile => Ok(FileKind::RegularFile),
        RemoteFileType::Symlink => Ok(FileKind::Symlink),
        RemoteFileType::Socket => Ok(FileKind::Socket),
        RemoteFileType::Other(_) => Err(Errno::EBADF),
    }
}

/// The attributes that the kernel is told of the file with inode number
/// `ino`, of kind `kind`, of which the remote side says `stat`, on behalf of
/// the user `uid` in the group `gid`.
pub open spec fn spec_attr(ino: u64, stat: RemoteStat, kind: FileKind, uid: u32, gid: u32)
    -> FileAttr {
    let size = stat.size.unwrap_or(0);
    FileAttr {
        ino,
        size,
        blocks: (size / 512 + 1) as u64,
        atime: stat.atime.unwrap_or(0),
        mtime: stat.mtime.unwrap_or(0),
        ctime: stat.mtime.unwrap_or(0),
        crtime: 0,
        kind,
        perm: (stat.perm.unwrap_or(DEFAULT_PERM) & 0xffff) as u16,
        nlink: 1,
        uid,
        gid,
        rdev: 0,
        blksize: BLOCK_SIZE,
        flags: 0,
    }
}

impl RemoteStat {
    /// What stands for `.` and `..` in a listing: a record that says one
    /// thing only, that this is a directory.
    pub fn directory() -> (res: RemoteStat)
        ensures
            res == (RemoteStat {
                size: None,
                uid: None,
                gid: None,
                perm: Some(S_IFDIR),
                atime: None,
                mtime: None,
            }),
            spec_file_type(res.perm) == RemoteFileType::Directory,
    {
        assert(S_IFDIR & S_IFMT == S_IFDIR) by (bit_vector);
        RemoteStat { size: None, uid: None, gid: None, perm: Some(S_IFDIR), atime: None, mtime: None }
    }

    /// The type of the file, from the type bits of its mode.
    pub fn file_type(&self) -> (res: RemoteFileType)
        ensures
            res == spec_file_type(self.perm),
    {
        stat_file_type(self.perm)
    }

    /// Whether this is a directory.
    pub fn is_dir(&self) -> (res: bool)
        ensures
            res == (spec_file_type(self.perm) == RemoteFileType::Directory),
    {
        self.file_type() == RemoteFileType::Directory
    }

    /// Whether this is a symbolic link.
    pub fn is_symlink(&self) -> (res: bool)
        ensures
            res == (spec_file_type(self.perm) == RemoteFileType::Symlink),
    {
        self.file_type() == RemoteFileType::Symlink
    }
}

/// The type that the kernel is told for a type of the transport.
pub fn file_kind(t: RemoteFileType) -> (res: Result<FileKind, Errno>)
    ensures
        res == spec_file_kind(t),
{
    match t {
        RemoteFileType::NamedPipe => Ok(FileKind::NamedPipe),
        RemoteFileType::CharDevice => Ok(FileKind::CharDevice),
        RemoteFileType::BlockDevice => Ok(FileKind::BlockDevice),
        RemoteFileType::Directory => Ok(FileKind::Directory),
        RemoteFileType::RegularFile => Ok(FileKind::RegularFile),
        RemoteFileType::Symlink => Ok(FileKind::Symlink),
        RemoteFileType::Socket => Ok(FileKind::Socket),
        RemoteFileType::Other(_) => Err(Errno::EBADF),
    }
}

/// The attributes that the kernel is told of a file.
pub fn make_attr(ino: u64, stat: &RemoteStat, kind: FileKind, uid: u32, gid: u32) -> (res:
    FileAttr)
    ensures
        res == spec_attr(ino, *stat, kind, uid, gid),
{
    let size = match stat.size {
        Some(s) => s,
        None => 0,
    };
    let atime = match stat.atime {
        Some(t) => t,
        None => 0,
    };
    let mtime = match stat.mtime {
        Some(t) => t,
        None => 0,
    };
    let mode = match stat.perm {
        Some(p) => p,
        None => DEFAULT_PERM,
    };
    let low = mode & 0xffff;
    assert(mode & 0xffff <= 0xffff) by (bit_vector);
    FileAttr {
        ino,
        size,
        blocks: size / 512 + 1,
        atime,
        mtime,
        ctime: mtime,
        crtime: 0,
        kind,
        perm: low as u16,
        nlink: 1,
        uid,
        gid,
        rdev: 0,
        blksize: BLOCK_SIZE,
        flags: 0,
    }
}

} // verus!
