//! The error codes that the bridge reports to the kernel, and how the errors
//! of the transport are turned into them.

use std::io::ErrorKind;
use vstd::prelude::*;

verus! {

/// `std::io::ErrorKind`, with its variants: the kinds of error by which a
/// local I/O error is told. Nothing is claimed of it but that it is this
/// enum.
#[verifier::external_type_specification]
pub struct ExErrorKind(ErrorKind);

/// A POSIX error, by its name.
#[allow(non_camel_case_types)]
#[derive(Debug, Clone, Copy, PartialEq, Eq, Structural)]
pub enum Errno {
    EPERM,
    ENOENT,
    EINTR,
    EIO,
    ENXIO,
    EBADF,
    EWOULDBLOCK,
    ENOMEM,
    EACCES,
    EEXIST,
    ENODEV,
    ENOTDIR,
    EINVAL,
    ENOSPC,
    EPIPE,
    ENAMETOOLONG,
    ENOLCK,
    ENOTEMPTY,
    ELOOP,
    EILSEQ,
    ENOTSUP,
    EADDRINUSE,
    EADDRNOTAVAIL,
    ENETDOWN,
    ECONNABORTED,
    ECONNRESET,
    ENOTCONN,
    ETIMEDOUT,
    ECONNREFUSED,
    EDQUOT,
}

impl Errno {
    /// The number that Linux gives the error.
    pub open spec fn spec_code(self) -> i32 {
        match self {
            Errno::EPERM => 1,
            Errno::ENOENT => 2,
            Errno::EINTR => 4,
            Errno::EIO => 5,
            Errno::ENXIO => 6,
            Errno::EBADF => 9,
            Errno::EWOULDBLOCK => 11,
            Errno::ENOMEM => 12,
            Errno::EACCES => 13,
            Errno::EEXIST => 17,
            Errno::ENODEV => 19,
            Errno::ENOTDIR => 20,
            Errno::EINVAL => 22,
            Errno::ENOSPC => 28,
            Errno::EPIPE => 32,
            Errno::ENAMETOOLONG => 36,
            Errno::ENOLCK => 37,
            Errno::ENOTEMPTY => 39,
            Errno::ELOOP => 40,
            Errno::EILSEQ => 84,
            Errno::ENOTSUP => 95,
            Errno::EADDRINUSE => 98,
            Errno::EADDRNOTAVAIL => 99,
            Errno::ENETDOWN => 100,
            Errno::ECONNABORTED => 103,
            Errno::ECONNRESET => 104,
            Errno::ENOTCONN => 107,
            Errno::ETIMEDOUT => 110,
            Errno::ECONNREFUSED => 111,
            Errno::EDQUOT => 122,
        }
    }

    /// The number that Linux gives the error; it is positive.
    #[verifier::when_used_as_spec(spec_code)]
    pub fn code(self) -> (res: i32)
        ensures
            res == self.spec_code(),
            0 < res < 4096,
    {
        match self {
            Errno::EPERM => 1,
            Errno::ENOENT => 2,
            Errno::EINTR => 4,
            Errno::EIO => 5,
            Errno::ENXIO => 6,
            Errno::EBADF => 9,
            Errno::EWOULDBLOCK => 11,
            Errno::ENOMEM => 12,
            Errno::EACCES => 13,
            Errno::EEXIST => 17,
            Errno::ENODEV => 19,
            Errno::ENOTDIR => 20,
            Errno::EINVAL => 22,
            Errno::ENOSPC => 28,
            Errno::EPIPE => 32,
            Errno::ENAMETOOLONG => 36,
            Errno::ENOLCK => 37,
            Errno::ENOTEMPTY => 39,
            Errno::ELOOP => 40,
            Errno::EILSEQ => 84,
            Errno::ENOTSUP => 95,
            Errno::EADDRINUSE => 98,
            Errno::EADDRNOTAVAIL => 99,
            Errno::ENETDOWN => 100,
            Errno::ECONNABORTED => 103,
            Errno::ECONNRESET => 104,
            Errno::ENOTCONN => 107,
            Errno::ETIMEDOUT => 110,
            Errno::ECONNREFUSED => 111,
            Errno::EDQUOT => 122,
        }
    }
}

/// An error of the transport.
#[derive(Debug, Clone, Copy)]
pub enum RemoteError {
    /// The session failed below the SFTP layer, with this code.
    Session(i32),
    /// The SFTP server answered with this status.
    Sftp(i32),
    /// Reading, writing or seeking in an open file failed.
    Io(ErrorKind),
}

/// The session code that the transport has been seen to give for a directory
/// that is not empty.
pub const SESSION_DIR_NOT_EMPTY: i32 = -31;

/// The error that stands for a kind of local I/O error.
pub open spec fn io_errno(kind: ErrorKind) -> Errno {
    match kind {
        ErrorKind::NotFound => Errno::ENOENT,
        ErrorKind::PermissionDenied => Errno::EACCES,
        ErrorKind::ConnectionRefused => Errno::ECONNREFUSED,
        ErrorKind::ConnectionReset => Errno::ECONNRESET,
        ErrorKind::ConnectionAborted => Errno::ECONNABORTED,
        ErrorKind::NotConnected => Errno::ENOTCONN,
        ErrorKind::AddrInUse => Errno::EADDRINUSE,
        ErrorKind::AddrNotAvailable => Errno::EADDRNOTAVAIL,
        ErrorKind::BrokenPipe => Errno::EPIPE,
        ErrorKind::AlreadyExists => Errno::EEXIST,
        ErrorKind::WouldBlock => Errno::EWOULDBLOCK,
        ErrorKind::InvalidInput => Errno::EINVAL,
        ErrorKind::InvalidData => Errno::EILSEQ,
        ErrorKind::TimedOut => Errno::ETIMEDOUT,
        ErrorKind::WriteZero => Errno::EIO,
        ErrorKind::Interrupted => Errno::EINTR,
        ErrorKind::Unsupported => Errno::ENOTSUP,
        ErrorKind::UnexpectedEof => Errno::EIO,
        ErrorKind::OutOfMemory => Errno::ENOMEM,
        _ => Errno::EIO,
    }
}

/// The error that stands for a status of the SFTP server.
pub open spec fn sftp_errno(status: i32) -> Errno {
    if status == 2 || status == 10 {
        Errno::ENOENT
    } else if status == 3 || status == 12 {
        Errno::EACCES
    } else if status == 5 || status == 8 || status == 16 {
        Errno::ENODEV
    } else if status == 6 || status == 13 {
        Errno::ENXIO
    } else if status == 7 {
        Errno::ENETDOWN
    } else if status == 9 {
        Errno::EBADF
    } else if status == 11 {
        Errno::EEXIST
    } else if status == 14 {
        Errno::ENOSPC
    } else if status == 15 {
        Errno::EDQUOT
    } else if status == 17 {
        Errno::ENOLCK
    } else if status == 18 {
        Errno::ENOTEMPTY
    } else if status == 19 {
        Errno::ENOTDIR
    } else if status == 20 {
        Errno::ENAMETOOLONG
    } else if status == 21 {
        Errno::ELOOP
    } else {
        Errno::EIO
    }
}

/// The error that stands for an error of the transport: every failure of the
/// session is `ENXIO`, a status of the server and a local I/O error go by
/// their tables.
pub open spec fn remote_errno(e: RemoteError) -> Errno {
    match e {
        RemoteError::Session(_) => Errno::ENXIO,
        RemoteError::Sftp(status) => sftp_errno(status),
        RemoteError::Io(kind) => io_errno(kind),
    }
}

/// The error that stands for a failure to remove a directory: as
/// [`remote_errno`], but that the session code for a directory that is not
/// empty is reported as such.
pub open spec fn rmdir_errno(e: RemoteError) -> Errno {
    if e == RemoteError::Session(SESSION_DIR_NOT_EMPTY) {
        Errno::ENOTEMPTY
    } else {
        remote_errno(e)
    }
}

/// The error that stands for a kind of local I/O error.
pub fn errno_of_io(kind: ErrorKind) -> (res: Errno)
    ensures
        res == io_errno(kind),
{
    match kind {
        ErrorKind::NotFound => Errno::ENOENT,
        ErrorKind::PermissionDenied => Errno::EACCES,
        ErrorKind::ConnectionRefused => Errno::ECONNREFUSED,
        ErrorKind::ConnectionReset => Errno::ECONNRESET,
        ErrorKind::ConnectionAborted => Errno::ECONNABORTED,
        ErrorKind::NotConnected => Errno::ENOTCONN,
        ErrorKind::AddrInUse => Errno::EADDRINUSE,
        ErrorKind::AddrNotAvailable => Errno::EADDRNOTAVAIL,
        ErrorKind::BrokenPipe => Errno::EPIPE,
        ErrorKind::AlreadyExists => Errno::EEXIST,
        ErrorKind::WouldBlock => Errno::EWOULDBLOCK,
        ErrorKind::InvalidInput => Errno::EINVAL,
        ErrorKind::InvalidData => Errno::EILSEQ,
        ErrorKind::TimedOut => Errno::ETIMEDOUT,
        ErrorKind::WriteZero => Errno::EIO,
        ErrorKind::Interrupted => Errno::EINTR,
        ErrorKind::Unsupported => Errno::ENOTSUP,
        ErrorKind::UnexpectedEof => Errno::EIO,
        ErrorKind::OutOfMemory => Errno::ENOMEM,
        _ => Errno::EIO,
    }
}

/// The error that stands for a status of the SFTP server.
pub fn errno_of_sftp(status: i32) -> (res: Errno)
    ensures
        res == sftp_errno(status),
{
    match status {
        2 => Errno::ENOENT,
        3 => Errno::EACCES,
        4 => Errno::EIO,
        5 => Errno::ENODEV,
        6 => Errno::ENXIO,
        7 => Errno::ENETDOWN,
        8 => Errno::ENODEV,
        9 => Errno::EBADF,
        10 => Errno::ENOENT,
        11 => Errno::EEXIST,
        12 => Errno::EACCES,
        13 => Errno::ENXIO,
        14 => Errno::ENOSPC,
        15 => Errno::EDQUOT,
        16 => Errno::ENODEV,
        17 => Errno::ENOLCK,
        18 => Errno::ENOTEMPTY,
        19 => Errno::ENOTDIR,
        20 => Errno::ENAMETOOLONG,
        21 => Errno::ELOOP,
        _ => Errno::EIO,
    }
}

/// The error that stands for an error of the transport.
pub fn errno_of_remote(e: &RemoteError) -> (res: Errno)
    ensures
        res == remote_errno(*e),
{
    match e {
        RemoteError::Session(_) => Errno::ENXIO,
        RemoteError::Sftp(status) => errno_of_sftp(*status),
        RemoteError::Io(kind) => errno_of_io(*kind),
    }
}

/// The error that stands for a failure to remove a directory.
pub fn errno_of_rmdir(e: &RemoteError) -> (res: Errno)
    ensures
        res == rmdir_errno(*e),
{
    match e {
        RemoteError::Session(code) => {
            if *code == SESSION_DIR_NOT_EMPTY {
                Errno::ENOTEMPTY
            } else {
                Errno::ENXIO
            }
        },
        _ => errno_of_remote(e),
    }
}

} // verus!
