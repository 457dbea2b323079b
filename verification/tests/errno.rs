use sshfs::ssh_filesystem::errno::{
    errno_of_io, errno_of_remote, errno_of_rmdir, errno_of_sftp, Errno, RemoteError,
};
use std::io::ErrorKind;

#[test]
fn error_numbers_are_those_of_the_platform() {
    let table = [
        (Errno::EPERM, libc::EPERM),
        (Errno::ENOENT, libc::ENOENT),
        (Errno::EINTR, libc::EINTR),
        (Errno::EIO, libc::EIO),
        (Errno::ENXIO, libc::ENXIO),
        (Errno::EBADF, libc::EBADF),
        (Errno::EWOULDBLOCK, libc::EWOULDBLOCK),
        (Errno::ENOMEM, libc::ENOMEM),
        (Errno::EACCES, libc::EACCES),
        (Errno::EEXIST, libc::EEXIST),
        (Errno::ENODEV, libc::ENODEV),
        (Errno::ENOTDIR, libc::ENOTDIR),
        (Errno::EINVAL, libc::EINVAL),
        (Errno::ENOSPC, libc::ENOSPC),
        (Errno::EPIPE, libc::EPIPE),
        (Errno::ENAMETOOLONG, libc::ENAMETOOLONG),
        (Errno::ENOLCK, libc::ENOLCK),
        (Errno::ENOTEMPTY, libc::ENOTEMPTY),
        (Errno::ELOOP, libc::ELOOP),
        (Errno::EILSEQ, libc::EILSEQ),
        (Errno::ENOTSUP, libc::ENOTSUP),
        (Errno::EADDRINUSE, libc::EADDRINUSE),
        (Errno::EADDRNOTAVAIL, libc::EADDRNOTAVAIL),
        (Errno::ENETDOWN, libc::ENETDOWN),
        (Errno::ECONNABORTED, libc::ECONNABORTED),
        (Errno::ECONNRESET, libc::ECONNRESET),
        (Errno::ENOTCONN, libc::ENOTCONN),
        (Errno::ETIMEDOUT, libc::ETIMEDOUT),
        (Errno::ECONNREFUSED, libc::ECONNREFUSED),
        (Errno::EDQUOT, libc::EDQUOT),
    ];
    for (name, number) in table {
        assert_eq!(name.code(), number, "{:?}", name);
    }
}

#[test]
fn local_io_errors_by_kind() {
    let table = [
        (ErrorKind::NotFound, Errno::ENOENT),
        (ErrorKind::PermissionDenied, Errno::EACCES),
        (ErrorKind::ConnectionRefused, Errno::ECONNREFUSED),
        (ErrorKind::ConnectionReset, Errno::ECONNRESET),
        (ErrorKind::ConnectionAborted, Errno::ECONNABORTED),
        (ErrorKind::NotConnected, Errno::ENOTCONN),
        (ErrorKind::AddrInUse, Errno::EADDRINUSE),
        (ErrorKind::AddrNotAvailable, Errno::EADDRNOTAVAIL),
        (ErrorKind::BrokenPipe, Errno::EPIPE),
        (ErrorKind::AlreadyExists, Errno::EEXIST),
        (ErrorKind::WouldBlock, Errno::EWOULDBLOCK),
        (ErrorKind::InvalidInput, Errno::EINVAL),
        (ErrorKind::InvalidData, Errno::EILSEQ),
        (ErrorKind::TimedOut, Errno::ETIMEDOUT),
        (ErrorKind::WriteZero, Errno::EIO),
        (ErrorKind::Interrupted, Errno::EINTR),
        (ErrorKind::Unsupported, Errno::ENOTSUP),
        (ErrorKind::UnexpectedEof, Errno::EIO),
        (ErrorKind::OutOfMemory, Errno::ENOMEM),
        (ErrorKind::Other, Errno::EIO),
        (ErrorKind::IsADirectory, Errno::EIO),
    ];
    for (kind, errno) in table {
        assert_eq!(errno_of_io(kind), errno, "{:?}", kind);
        assert_eq!(errno_of_remote(&RemoteError::Io(kind)), errno, "{:?}", kind);
    }
}

#[test]
fn sftp_status_by_number() {
    let table = [
        (2, Errno::ENOENT),
        (3, Errno::EACCES),
        (4, Errno::EIO),
        (5, Errno::ENODEV),
        (6, Errno::ENXIO),
        (7, Errno::ENETDOWN),
        (8, Errno::ENODEV),
        (9, Errno::EBADF),
        (10, Errno::ENOENT),
        (11, Errno::EEXIST),
        (12, Errno::EACCES),
        (13, Errno::ENXIO),
        (14, Errno::ENOSPC),
        (15, Errno::EDQUOT),
        (16, Errno::ENODEV),
        (17, Errno::ENOLCK),
        (18, Errno::ENOTEMPTY),
        (19, Errno::ENOTDIR),
        (20, Errno::ENAMETOOLONG),
        (21, Errno::ELOOP),
        (0, Errno::EIO),
        (1, Errno::EIO),
        (22, Errno::EIO),
        (-1, Errno::EIO),
        (i32::MAX, Errno::EIO),
        (i32::MIN, Errno::EIO),
    ];
    for (status, errno) in table {
        assert_eq!(errno_of_sftp(status), errno, "{}", status);
        assert_eq!(errno_of_remote(&RemoteError::Sftp(status)), errno, "{}", status);
        assert_eq!(errno_of_rmdir(&RemoteError::Sftp(status)), errno, "{}", status);
    }
}

#[test]
fn session_errors() {
    for code in [0, -1, -18, -31, -43, i32::MIN, 18, 2] {
        assert_eq!(errno_of_remote(&RemoteError::Session(code)), Errno::ENXIO);
    }
    assert_eq!(errno_of_rmdir(&RemoteError::Session(-31)), Errno::ENOTEMPTY);
    assert_eq!(errno_of_rmdir(&RemoteError::Session(-30)), Errno::ENXIO);
    assert_eq!(errno_of_rmdir(&RemoteError::Session(31)), Errno::ENXIO);
    assert_eq!(errno_of_rmdir(&RemoteError::Io(ErrorKind::NotFound)), Errno::ENOENT);
}
