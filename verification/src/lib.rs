//! A bridge between the kernel's userspace-filesystem callbacks and a remote
//! directory reached over SFTP: the tables, conversions and decisions of the
//! bridge, each with its contract.

pub mod ssh_filesystem;
pub mod cmdline_opt;
pub mod fuse_util;
pub mod ssh_connect;
