//! The bridge driven against a remote tree that is kept in memory.

use sshfs::ssh_filesystem::attr::{FileAttr, FileKind, RemoteStat};
use sshfs::ssh_filesystem::errno::{Errno, RemoteError};
use sshfs::ssh_filesystem::path::RemotePath;
use sshfs::ssh_filesystem::posix::{
    SeekFrom, O_CREAT, O_TRUNC, O_WRONLY, RENAME_NOREPLACE, SEEK_CUR, SEEK_END, SEEK_SET, S_IFDIR,
    S_IFLNK, S_IFREG,
};
use sshfs::ssh_filesystem::protocol::{
    Action, DirEntry, DirItem, ExecAction, ExecOutcome, ExecStep, Outcome, Reply, SetTime, Step,
};
use sshfs::ssh_filesystem::Sshfs;
use std::cell::RefCell;
use std::collections::BTreeMap;

const O_RDONLY: i32 = 0;

#[derive(Debug, Clone)]
enum Node {
    Dir { perm: u32 },
    File { data: Vec<u8>, perm: u32, atime: u64, mtime: u64 },
    Link { target: Vec<u8> },
}

#[derive(Debug)]
struct OpenFile {
    path: Vec<u8>,
    pos: u64,
    append: bool,
}

/// A remote side in memory. It reads and writes two bytes at a time, and it
/// reports a directory that is not empty the way the transport has been seen
/// to: with the session code -31.
struct Remote {
    nodes: BTreeMap<Vec<u8>, Node>,
    listed: Vec<DirEntry<Vec<u8>>>,
    room: usize,
    calls: Vec<String>,
}

type Bridge = Sshfs<RefCell<OpenFile>>;

fn parent_of(path: &[u8]) -> Vec<u8> {
    match path.iter().rposition(|b| *b == b'/') {
        Some(0) => b"/".to_vec(),
        Some(i) => path[..i].to_vec(),
        None => Vec::new(),
    }
}

impl Remote {
    fn new() -> Remote {
        let mut nodes = BTreeMap::new();
        nodes.insert(b"/srv".to_vec(), Node::Dir { perm: 0o755 });
        nodes.insert(b"/srv/data".to_vec(), Node::Dir { perm: 0o755 });
        nodes.insert(
            b"/srv/data/hello.txt".to_vec(),
            Node::File { data: b"hi\n".to_vec(), perm: 0o644, atime: 1000, mtime: 2000 },
        );
        nodes.insert(b"/srv/data/sub".to_vec(), Node::Dir { perm: 0o750 });
        Remote { nodes, listed: Vec::new(), room: usize::MAX, calls: Vec::new() }
    }

    fn stat(&self, path: &[u8]) -> Option<RemoteStat> {
        let none = RemoteStat { size: None, uid: None, gid: None, perm: None, atime: None, mtime: None };
        match self.nodes.get(path)? {
            Node::Dir { perm } => Some(RemoteStat { perm: Some(S_IFDIR | perm), size: Some(4096), ..none }),
            Node::File { data, perm, atime, mtime } => Some(RemoteStat {
                perm: Some(S_IFREG | perm),
                size: Some(data.len() as u64),
                atime: Some(*atime),
                mtime: Some(*mtime),
                ..none
            }),
            Node::Link { target } => Some(RemoteStat {
                perm: Some(S_IFLNK | 0o777),
                size: Some(target.len() as u64),
                ..none
            }),
        }
    }

    fn children(&self, dir: &[u8]) -> Vec<Vec<u8>> {
        self.nodes.keys().filter(|k| k.as_slice() != dir && parent_of(k) == dir).cloned().collect()
    }

    fn perform(&mut self, bridge: &Bridge, action: ExecAction) -> ExecOutcome<RefCell<OpenFile>> {
        let missing = Outcome::Failed(RemoteError::Sftp(2));
        self.calls.push(format!("{:?}", action).split(|c| c == '(' || c == ' ').next().unwrap().to_string());
        match action {
            Action::Lstat(p) => match self.stat(&p.to_bytes()) {
                Some(s) => Outcome::Stat(s),
                None => missing,
            },
            Action::Readdir(p) => {
                let dir = p.to_bytes();
                if !matches!(self.nodes.get(&dir), Some(Node::Dir { .. })) {
                    return missing;
                }
                let items = self
                    .children(&dir)
                    .into_iter()
                    .map(|path| DirItem { stat: self.stat(&path).unwrap(), path })
                    .collect();
                Outcome::Listing(items)
            }
            Action::Readlink(p) => match self.nodes.get(&p.to_bytes()) {
                Some(Node::Link { target }) => Outcome::Link(target.clone()),
                Some(_) => Outcome::Failed(RemoteError::Sftp(4)),
                None => missing,
            },
            Action::Open { path, flags, mode } => {
                let key = path.to_bytes();
                match self.nodes.get_mut(&key) {
                    Some(Node::File { data, .. }) => {
                        if flags.create && flags.exclusive {
                            return Outcome::Failed(RemoteError::Sftp(11));
                        }
                        if flags.truncate {
                            data.clear();
                        }
                    }
                    Some(_) => return Outcome::Failed(RemoteError::Sftp(4)),
                    None => {
                        if !flags.create {
                            return missing;
                        }
                        if !self.nodes.contains_key(&parent_of(&key)) {
                            return missing;
                        }
                        self.nodes.insert(
                            key.clone(),
                            Node::File { data: Vec::new(), perm: mode & 0o777, atime: 0, mtime: 0 },
                        );
                    }
                }
                Outcome::Opened(RefCell::new(OpenFile { path: key, pos: 0, append: flags.append }))
            }
            Action::Unlink(p) => match self.nodes.get(&p.to_bytes()) {
                Some(Node::Dir { .. }) => Outcome::Failed(RemoteError::Sftp(4)),
                Some(_) => {
                    self.nodes.remove(&p.to_bytes());
                    Outcome::Done
                }
                None => missing,
            },
            Action::Mkdir { path, mode } => {
                let key = path.to_bytes();
                if self.nodes.contains_key(&key) {
                    return Outcome::Failed(RemoteError::Sftp(11));
                }
                self.nodes.insert(key, Node::Dir { perm: mode });
                Outcome::Done
            }
            Action::Rmdir(p) => {
                let key = p.to_bytes();
                match self.nodes.get(&key) {
                    Some(Node::Dir { .. }) => {
                        if !self.children(&key).is_empty() {
                            return Outcome::Failed(RemoteError::Session(-31));
                        }
                        self.nodes.remove(&key);
                        Outcome::Done
                    }
                    Some(_) => Outcome::Failed(RemoteError::Sftp(19)),
                    None => missing,
                }
            }
            Action::Symlink { target, path } => {
                self.nodes.insert(path.to_bytes(), Node::Link { target });
                Outcome::Done
            }
            Action::Setstat { path, stat } => match self.nodes.get_mut(&path.to_bytes()) {
                Some(Node::File { data, perm, atime, mtime }) => {
                    if let Some(size) = stat.size {
                        data.resize(size as usize, 0);
                    }
                    if let Some(p) = stat.perm {
                        *perm = p & 0o7777;
                    }
                    if let Some(t) = stat.atime {
                        *atime = t;
                    }
                    if let Some(t) = stat.mtime {
                        *mtime = t;
                    }
                    Outcome::Done
                }
                Some(_) => Outcome::Done,
                None => missing,
            },
            Action::Rename { from, to, flags } => {
                assert!(flags.native);
                let (from, to) = (from.to_bytes(), to.to_bytes());
                if self.nodes.contains_key(&to) {
                    return Outcome::Failed(RemoteError::Sftp(11));
                }
                match self.nodes.remove(&from) {
                    Some(node) => {
                        self.nodes.insert(to, node);
                        Outcome::Done
                    }
                    None => missing,
                }
            }
            Action::Seek { fh, from } => {
                let file = bridge.file(fh).expect("the bridge names a handle that is in use");
                let mut file = file.borrow_mut();
                let len = match self.nodes.get(&file.path) {
                    Some(Node::File { data, .. }) => data.len() as i64,
                    _ => return Outcome::Failed(RemoteError::Io(std::io::ErrorKind::NotFound)),
                };
                let pos = match from {
                    SeekFrom::Start(p) => p as i64,
                    SeekFrom::Current(d) => file.pos as i64 + d,
                    SeekFrom::End(d) => len + d,
                };
                if pos < 0 {
                    return Outcome::Failed(RemoteError::Io(std::io::ErrorKind::InvalidInput));
                }
                file.pos = pos as u64;
                Outcome::Position(file.pos)
            }
            Action::Read { fh, max } => {
                let file = bridge.file(fh).expect("the bridge names a handle that is in use");
                let mut file = file.borrow_mut();
                let data = match self.nodes.get(&file.path) {
                    Some(Node::File { data, .. }) => data,
                    _ => return Outcome::Failed(RemoteError::Io(std::io::ErrorKind::NotFound)),
                };
                let start = (file.pos as usize).min(data.len());
                let end = data.len().min(start + 2).min(start + max as usize);
                file.pos = end as u64;
                Outcome::Data(data[start..end].to_vec())
            }
            Action::Write { fh, data: bytes } => {
                let file = bridge.file(fh).expect("the bridge names a handle that is in use");
                let mut file = file.borrow_mut();
                let append = file.append;
                let data = match self.nodes.get_mut(&file.path) {
                    Some(Node::File { data, .. }) => data,
                    _ => return Outcome::Failed(RemoteError::Io(std::io::ErrorKind::BrokenPipe)),
                };
                if append {
                    file.pos = data.len() as u64;
                }
                let n = bytes.len().min(2);
                let pos = file.pos as usize;
                if data.len() < pos + n {
                    data.resize(pos + n, 0);
                }
                data[pos..pos + n].copy_from_slice(&bytes[..n]);
                file.pos += n as u64;
                Outcome::Written(n)
            }
            Action::AddEntry(entry) => {
                if self.listed.len() >= self.room {
                    // an entry that finds no room is not kept
                    return Outcome::EntryAdded(true);
                }
                self.listed.push(entry);
                Outcome::EntryAdded(false)
            }
        }
    }

    fn drive(&mut self, bridge: &mut Bridge, first: ExecStep) -> Reply<Vec<u8>> {
        let mut step = first;
        for _ in 0..10_000 {
            match step {
                Step::Reply(reply) => return reply,
                Step::Call(action, pending) => {
                    let outcome = self.perform(bridge, action);
                    assert!(bridge.has_room());
                    step = bridge.resume(pending, outcome);
                }
            }
        }
        panic!("the conversation does not end");
    }
}

fn mounted() -> (Remote, Bridge) {
    (Remote::new(), Sshfs::new(RemotePath::from_bytes(b"/srv/data")))
}

fn entry(reply: Reply<Vec<u8>>) -> FileAttr {
    match reply {
        Reply::Entry { attr, ttl, generation } => {
            assert_eq!((ttl, generation), (1, 0));
            attr
        }
        other => panic!("no entry: {:?}", other),
    }
}

fn attr(reply: Reply<Vec<u8>>) -> FileAttr {
    match reply {
        Reply::Attr { attr, ttl } => {
            assert_eq!(ttl, 1);
            attr
        }
        other => panic!("no attributes: {:?}", other),
    }
}

fn error(reply: Reply<Vec<u8>>) -> Errno {
    match reply {
        Reply::Error(e) => e,
        other => panic!("no error: {:?}", other),
    }
}

fn opened(reply: Reply<Vec<u8>>) -> (u64, u32) {
    match reply {
        Reply::Opened { fh, flags } => (fh, flags),
        other => panic!("not opened: {:?}", other),
    }
}

fn data(reply: Reply<Vec<u8>>) -> Vec<u8> {
    match reply {
        Reply::Data(d) => d,
        other => panic!("no data: {:?}", other),
    }
}

fn lookup(r: &mut Remote, b: &mut Bridge, parent: u64, name: &str) -> Reply<Vec<u8>> {
    let s = b.lookup(parent, name.as_bytes(), 501, 20);
    r.drive(b, s)
}

fn open(r: &mut Remote, b: &mut Bridge, ino: u64, flags: i32) -> u64 {
    let s = b.open(ino, flags);
    let (fh, echoed) = opened(r.drive(b, s));
    assert_eq!(echoed, flags as u32);
    fh
}

fn read(r: &mut Remote, b: &mut Bridge, fh: u64, offset: i64, size: u32) -> Vec<u8> {
    let s = b.read(fh, offset, size);
    data(r.drive(b, s))
}

fn names(listed: &[DirEntry<Vec<u8>>]) -> Vec<String> {
    listed.iter().map(|e| String::from_utf8(e.name.clone()).unwrap()).collect()
}

#[test]
fn stat_reports_size_kind_and_permissions() {
    let (mut r, mut b) = mounted();
    let a = entry(lookup(&mut r, &mut b, 1, "hello.txt"));
    assert_eq!(a.size, 3);
    assert_eq!(a.kind, FileKind::RegularFile);
    assert_eq!(a.perm & 0o7777, 0o644);
    assert_eq!(a.perm, 0o100644);
    assert_eq!(a.blocks, 1);
    assert_eq!((a.atime, a.mtime, a.ctime, a.crtime), (1000, 2000, 2000, 0));
    assert_eq!((a.nlink, a.rdev, a.blksize, a.flags), (1, 0, 512, 0));
    assert_eq!((a.uid, a.gid), (501, 20));
    assert_eq!(a.ino, 2);

    // the same path keeps its number; other users get their own ids
    let s = b.getattr(a.ino, 7, 8);
    let again = attr(r.drive(&mut b, s));
    assert_eq!((again.ino, again.uid, again.gid), (2, 7, 8));

    // the root is inode 1
    let s = b.getattr(1, 0, 0);
    let root = attr(r.drive(&mut b, s));
    assert_eq!(root.kind, FileKind::Directory);
    assert_eq!(root.ino, 1);
    assert_eq!(root.perm & 0o777, 0o755);
}

#[test]
fn open_and_read_give_the_bytes_and_then_the_end() {
    let (mut r, mut b) = mounted();
    let ino = entry(lookup(&mut r, &mut b, 1, "hello.txt")).ino;
    let fh = open(&mut r, &mut b, ino, O_RDONLY);
    assert_eq!(read(&mut r, &mut b, fh, 0, 1024), vec![b'h', b'i', b'\n']);
    assert_eq!(read(&mut r, &mut b, fh, 3, 1024), Vec::<u8>::new());
    // a read of fewer bytes than there are stops when the buffer is full
    assert_eq!(read(&mut r, &mut b, fh, 1, 1), vec![b'i']);
    assert_eq!(read(&mut r, &mut b, fh, 0, 0), Vec::<u8>::new());
    // the remote file was opened for reading only, with mode 0o777
    assert_eq!(r.calls.iter().filter(|c| c.as_str() == "Open").count(), 1);
}

#[test]
fn readdir_lists_dots_first_with_the_root_inode() {
    let (mut r, mut b) = mounted();
    let s = b.readdir(1, 0);
    assert!(matches!(r.drive(&mut b, s), Reply::Done));
    assert_eq!(names(&r.listed), vec![".", "..", "hello.txt", "sub"]);
    assert_eq!(r.listed[0].ino, 1);
    assert_eq!(r.listed[1].ino, 1);
    assert_eq!(r.listed[0].kind, FileKind::Directory);
    assert_eq!(r.listed[1].kind, FileKind::Directory);
    assert_eq!(r.listed[2].kind, FileKind::RegularFile);
    assert_eq!(r.listed[3].kind, FileKind::Directory);
    let offsets: Vec<i64> = r.listed.iter().map(|e| e.offset).collect();
    assert_eq!(offsets, vec![1, 2, 3, 4]);
    // the entries bear the numbers that a lookup finds
    let hello = r.listed[2].ino;
    let sub = r.listed[3].ino;
    assert_ne!(hello, sub);
    assert_eq!(entry(lookup(&mut r, &mut b, 1, "hello.txt")).ino, hello);
    assert_eq!(entry(lookup(&mut r, &mut b, 1, "sub")).ino, sub);
}

#[test]
fn readdir_goes_on_at_an_offset_and_stops_when_the_reply_is_full() {
    let (mut r, mut b) = mounted();
    r.room = 3;
    let s = b.readdir(1, 0);
    assert!(matches!(r.drive(&mut b, s), Reply::Done));
    assert_eq!(names(&r.listed), vec![".", "..", "hello.txt"]);
    let next = r.listed[2].offset;
    r.listed.clear();
    r.room = usize::MAX;
    let s = b.readdir(1, next);
    assert!(matches!(r.drive(&mut b, s), Reply::Done));
    assert_eq!(names(&r.listed), vec!["sub"]);
    assert_eq!(r.listed[0].offset, 4);
    // past the end, and before the start, there is nothing
    for offset in [4, 100, -1, i64::MIN, i64::MAX] {
        r.listed.clear();
        let s = b.readdir(1, offset);
        assert!(matches!(r.drive(&mut b, s), Reply::Done));
        assert!(r.listed.is_empty());
    }
}

#[test]
fn mkdir_then_rmdir_twice() {
    let (mut r, mut b) = mounted();
    let s = b.mkdir(1, b"new", 0o755, 0o022, 1, 1);
    let made = entry(r.drive(&mut b, s));
    assert_eq!(made.kind, FileKind::Directory);
    assert_eq!(made.perm & 0o777, 0o755);
    let s = b.rmdir(1, b"new");
    assert!(matches!(r.drive(&mut b, s), Reply::Done));
    let s = b.rmdir(1, b"new");
    assert_eq!(error(r.drive(&mut b, s)), Errno::ENOENT);
    // the number of the removed directory is not handed out again
    let s = b.mkdir(1, b"new", 0o755, 0o022, 1, 1);
    assert!(entry(r.drive(&mut b, s)).ino > made.ino);
}

#[test]
fn mkdir_takes_the_umask_out_of_the_mode() {
    let (mut r, mut b) = mounted();
    let s = b.mkdir(1, b"shy", 0o40777, 0o027, 1, 1);
    assert_eq!(entry(r.drive(&mut b, s)).perm & 0o7777, 0o750);
}

#[test]
fn write_to_a_new_file_then_read_it_back() {
    let (mut r, mut b) = mounted();
    let s = b.mknod(1, b"fresh", S_IFREG | 0o600, 0, 1, 1);
    let made = entry(r.drive(&mut b, s));
    assert_eq!(made.kind, FileKind::RegularFile);
    assert_eq!(made.perm & 0o777, 0o600);
    assert_eq!(made.size, 0);
    let fh = open(&mut r, &mut b, made.ino, O_WRONLY | O_CREAT | O_TRUNC);
    let s = b.write(fh, 0, b"abc".to_vec());
    assert!(matches!(r.drive(&mut b, s), Reply::Written(3)));
    let s = b.release(fh);
    assert!(matches!(r.drive(&mut b, s), Reply::Done));
    assert!(b.file(fh).is_none());
    let again = open(&mut r, &mut b, made.ino, O_RDONLY);
    assert_ne!(again, fh);
    assert_eq!(read(&mut r, &mut b, again, 0, 1024), b"abc".to_vec());
    // a write in the middle leaves the rest; an empty write writes nothing
    let w = open(&mut r, &mut b, made.ino, O_WRONLY);
    let s = b.write(w, 1, b"XYZ!".to_vec());
    assert!(matches!(r.drive(&mut b, s), Reply::Written(4)));
    let s = b.write(w, 0, Vec::new());
    assert!(matches!(r.drive(&mut b, s), Reply::Written(0)));
    assert_eq!(read(&mut r, &mut b, again, 0, 1024), b"aXYZ!".to_vec());
}

#[test]
fn rename_keeps_the_inode() {
    let (mut r, mut b) = mounted();
    let before = entry(lookup(&mut r, &mut b, 1, "hello.txt")).ino;
    let sub = entry(lookup(&mut r, &mut b, 1, "sub")).ino;
    let s = b.rename(1, b"hello.txt", sub, b"hi.txt", 0);
    assert!(matches!(r.drive(&mut b, s), Reply::Done));
    assert_eq!(entry(lookup(&mut r, &mut b, sub, "hi.txt")).ino, before);
    assert_eq!(error(lookup(&mut r, &mut b, 1, "hello.txt")), Errno::ENOENT);
    let s = b.getattr(before, 0, 0);
    assert_eq!(attr(r.drive(&mut b, s)).size, 3);
}

#[test]
fn rename_replaces_what_bears_the_new_name() {
    let (mut r, mut b) = mounted();
    let hello = entry(lookup(&mut r, &mut b, 1, "hello.txt")).ino;
    let s = b.mknod(1, b"other", S_IFREG | 0o644, 0, 1, 1);
    let other = entry(r.drive(&mut b, s)).ino;
    r.calls.clear();
    let s = b.rename(1, b"hello.txt", 1, b"other", 0);
    assert!(matches!(r.drive(&mut b, s), Reply::Done));
    assert_eq!(r.calls, vec!["Lstat", "Unlink", "Rename"]);
    let now = entry(lookup(&mut r, &mut b, 1, "other"));
    assert_eq!((now.ino, now.size), (hello, 3));
    // the number of the file that was replaced stands for nothing now
    let s = b.getattr(other, 0, 0);
    assert_eq!(error(r.drive(&mut b, s)), Errno::ENOENT);

    // a directory in the way is removed as a directory
    r.calls.clear();
    let s = b.rename(1, b"other", 1, b"sub", 0);
    assert!(matches!(r.drive(&mut b, s), Reply::Done));
    assert_eq!(r.calls, vec!["Lstat", "Rmdir", "Rename"]);
}

#[test]
fn rename_without_replacement_does_not_look_first() {
    let (mut r, mut b) = mounted();
    let s = b.rename(1, b"hello.txt", 1, b"sub", RENAME_NOREPLACE);
    assert_eq!(error(r.drive(&mut b, s)), Errno::EEXIST);
    assert_eq!(r.calls, vec!["Rename"]);
    // a parent that is not registered is no entry
    let s = b.rename(99, b"a", 1, b"b", 0);
    assert_eq!(error(r.drive(&mut b, s)), Errno::ENOENT);
    let s = b.rename(1, b"a", 99, b"b", 0);
    assert_eq!(error(r.drive(&mut b, s)), Errno::ENOENT);
    assert_eq!(r.calls, vec!["Rename"]);
}

#[test]
fn rmdir_of_a_directory_that_is_not_empty() {
    let (mut r, mut b) = mounted();
    let sub = entry(lookup(&mut r, &mut b, 1, "sub")).ino;
    let s = b.mknod(sub, b"inner", S_IFREG | 0o644, 0o022, 1, 1);
    entry(r.drive(&mut b, s));
    let s = b.rmdir(1, b"sub");
    assert_eq!(error(r.drive(&mut b, s)), Errno::ENOTEMPTY);
    // the directory keeps its number
    assert_eq!(entry(lookup(&mut r, &mut b, 1, "sub")).ino, sub);
    // elsewhere the same session code is a failure of the session
    let s = b.unlink(1, b"hello.txt");
    match s {
        Step::Call(_, pending) => {
            let step = b.resume(pending, Outcome::Failed(RemoteError::Session(-31)));
            assert!(matches!(step, Step::Reply(Reply::Error(Errno::ENXIO))));
        }
        _ => panic!("unlink asks for nothing"),
    }
}

#[test]
fn unlink_drops_the_registration() {
    let (mut r, mut b) = mounted();
    let ino = entry(lookup(&mut r, &mut b, 1, "hello.txt")).ino;
    let s = b.unlink(1, b"hello.txt");
    assert!(matches!(r.drive(&mut b, s), Reply::Done));
    let s = b.getattr(ino, 0, 0);
    assert_eq!(error(r.drive(&mut b, s)), Errno::ENOENT);
    let s = b.unlink(1, b"hello.txt");
    assert_eq!(error(r.drive(&mut b, s)), Errno::ENOENT);
}

#[test]
fn mknod_makes_regular_files_only() {
    let (mut r, mut b) = mounted();
    let s = b.mknod(1, b"pipe", 0o010644, 0, 1, 1);
    assert_eq!(error(r.drive(&mut b, s)), Errno::EPERM);
    // the type is looked at before the parent
    let s = b.mknod(77, b"pipe", 0o010644, 0, 1, 1);
    assert_eq!(error(r.drive(&mut b, s)), Errno::EPERM);
    let s = b.mknod(77, b"file", S_IFREG | 0o644, 0, 1, 1);
    assert_eq!(error(r.drive(&mut b, s)), Errno::ENOENT);
    assert!(r.calls.is_empty());
    // the umask does not touch the type
    let s = b.mknod(1, b"file", S_IFREG | 0o666, 0o177777, 1, 1);
    match &s {
        Step::Call(Action::Open { flags, mode, .. }, _) => {
            assert_eq!(*mode, S_IFREG);
            assert!(flags.create);
            assert!(!flags.read && !flags.write && !flags.append && !flags.truncate && !flags.exclusive);
        }
        other => panic!("mknod does not open: {:?}", other),
    }
    assert_eq!(entry(r.drive(&mut b, s)).perm & 0o777, 0);
}

#[test]
fn symlink_and_readlink() {
    let (mut r, mut b) = mounted();
    let s = b.symlink(1, b"ln", b"hello.txt".to_vec(), 1, 1);
    let made = entry(r.drive(&mut b, s));
    assert_eq!(made.kind, FileKind::Symlink);
    let s = b.readlink(made.ino);
    assert_eq!(data(r.drive(&mut b, s)), b"hello.txt".to_vec());
    let s = b.readlink(1);
    assert_eq!(error(r.drive(&mut b, s)), Errno::EIO);
    let s = b.readlink(55);
    assert_eq!(error(r.drive(&mut b, s)), Errno::ENOENT);
}

#[test]
fn setattr_sets_what_is_named() {
    let (mut r, mut b) = mounted();
    let ino = entry(lookup(&mut r, &mut b, 1, "hello.txt")).ino;
    let s = b.setattr(ino, Some(0o600), Some(1), Some(SetTime::Now), Some(SetTime::At(-5)), 777, 1, 1);
    let a = attr(r.drive(&mut b, s));
    assert_eq!(a.size, 1);
    assert_eq!(a.perm & 0o777, 0o600);
    assert_eq!(a.atime, 777);
    assert_eq!(a.mtime, 0);
    let s = b.setattr(ino, None, None, None, Some(SetTime::At(42)), 999, 1, 1);
    match &s {
        Step::Call(Action::Setstat { stat, .. }, _) => {
            assert_eq!(
                *stat,
                RemoteStat { size: None, uid: None, gid: None, perm: None, atime: None, mtime: Some(42) }
            );
        }
        other => panic!("setattr does not set: {:?}", other),
    }
    let a = attr(r.drive(&mut b, s));
    assert_eq!((a.size, a.atime, a.mtime), (1, 777, 42));
    let s = b.setattr(1234, None, None, None, None, 0, 1, 1);
    assert_eq!(error(r.drive(&mut b, s)), Errno::ENOENT);
}

#[test]
fn lseek_reports_the_position() {
    let (mut r, mut b) = mounted();
    let ino = entry(lookup(&mut r, &mut b, 1, "hello.txt")).ino;
    let fh = open(&mut r, &mut b, ino, O_RDONLY);
    let s = b.lseek(fh, 2, SEEK_SET);
    assert!(matches!(r.drive(&mut b, s), Reply::Offset(2)));
    let s = b.lseek(fh, -1, SEEK_CUR);
    assert!(matches!(r.drive(&mut b, s), Reply::Offset(1)));
    let s = b.lseek(fh, 0, SEEK_END);
    assert!(matches!(r.drive(&mut b, s), Reply::Offset(3)));
    let s = b.lseek(fh, -9, SEEK_END);
    assert_eq!(error(r.drive(&mut b, s)), Errno::EINVAL);
    // an unknown whence is refused before the handle is looked up
    let s = b.lseek(fh + 1, 0, 3);
    assert_eq!(error(r.drive(&mut b, s)), Errno::EINVAL);
    let s = b.lseek(fh + 1, 0, SEEK_SET);
    assert_eq!(error(r.drive(&mut b, s)), Errno::EBADF);
}

#[test]
fn handles_are_distinct_and_gone_after_release() {
    let (mut r, mut b) = mounted();
    let ino = entry(lookup(&mut r, &mut b, 1, "hello.txt")).ino;
    let first = open(&mut r, &mut b, ino, O_RDONLY);
    let second = open(&mut r, &mut b, ino, O_RDONLY);
    let third = open(&mut r, &mut b, ino, O_RDONLY);
    assert_eq!((first, second, third), (0, 1, 2));
    let s = b.release(second);
    assert!(matches!(r.drive(&mut b, s), Reply::Done));
    assert!(b.file(second).is_none());
    assert!(b.file(first).is_some() && b.file(third).is_some());
    let s = b.read(second, 0, 10);
    assert_eq!(error(r.drive(&mut b, s)), Errno::EINVAL);
    let s = b.write(second, 0, vec![1]);
    assert_eq!(error(r.drive(&mut b, s)), Errno::EINVAL);
    // releasing a handle that is not in use is no error
    let s = b.release(second);
    assert!(matches!(r.drive(&mut b, s), Reply::Done));
    assert_eq!(open(&mut r, &mut b, ino, O_RDONLY), 3);
}

#[test]
fn entries_that_are_not_registered_are_no_entries() {
    let (mut r, mut b) = mounted();
    assert_eq!(error(lookup(&mut r, &mut b, 9, "x")), Errno::ENOENT);
    let s = b.getattr(9, 0, 0);
    assert_eq!(error(r.drive(&mut b, s)), Errno::ENOENT);
    let s = b.readdir(9, 0);
    assert_eq!(error(r.drive(&mut b, s)), Errno::ENOENT);
    let s = b.open(9, 0);
    assert_eq!(error(r.drive(&mut b, s)), Errno::ENOENT);
    let s = b.mkdir(9, b"d", 0o755, 0, 1, 1);
    assert_eq!(error(r.drive(&mut b, s)), Errno::ENOENT);
    let s = b.rmdir(9, b"d");
    assert_eq!(error(r.drive(&mut b, s)), Errno::ENOENT);
    let s = b.unlink(9, b"d");
    assert_eq!(error(r.drive(&mut b, s)), Errno::ENOENT);
    let s = b.symlink(9, b"d", b"t".to_vec(), 1, 1);
    assert_eq!(error(r.drive(&mut b, s)), Errno::ENOENT);
    assert!(r.calls.is_empty());
    // a lookup that fails registers nothing
    assert_eq!(error(lookup(&mut r, &mut b, 1, "absent")), Errno::ENOENT);
    assert_eq!(entry(lookup(&mut r, &mut b, 1, "hello.txt")).ino, 2);
}

#[test]
fn a_file_of_unknown_type_is_refused() {
    let (_, mut b) = mounted();
    let odd = RemoteStat { size: Some(1), uid: None, gid: None, perm: Some(0o644), atime: None, mtime: None };
    match b.lookup(1, b"odd", 1, 1) {
        Step::Call(_, pending) => {
            let step = b.resume(pending, Outcome::Stat(odd));
            assert!(matches!(step, Step::Reply(Reply::Error(Errno::EBADF))));
        }
        _ => panic!("lookup asks for nothing"),
    }
    // it was not registered: the next new path gets the first free number
    match b.lookup(1, b"fine", 1, 1) {
        Step::Call(_, pending) => {
            let fine = RemoteStat { perm: Some(S_IFREG | 0o644), ..odd };
            match b.resume(pending, Outcome::Stat(fine)) {
                Step::Reply(Reply::Entry { attr, .. }) => assert_eq!(attr.ino, 2),
                other => panic!("no entry: {:?}", other),
            }
        }
        _ => panic!("lookup asks for nothing"),
    }
}

#[test]
fn an_outcome_that_is_not_awaited_is_an_io_error() {
    let (_, mut b) = mounted();
    match b.lookup(1, b"x", 1, 1) {
        Step::Call(_, pending) => {
            let step = b.resume(pending, Outcome::Position(3));
            assert!(matches!(step, Step::Reply(Reply::Error(Errno::EIO))));
        }
        _ => panic!("lookup asks for nothing"),
    }
}

#[test]
fn attributes_without_fields_get_the_defaults() {
    let (_, mut b) = mounted();
    let bare = RemoteStat { size: None, uid: None, gid: None, perm: None, atime: None, mtime: None };
    let dir = RemoteStat { perm: Some(S_IFDIR), ..bare };
    match b.lookup(1, b"d", 3, 4) {
        Step::Call(_, pending) => match b.resume(pending, Outcome::Stat(dir)) {
            Step::Reply(Reply::Entry { attr, .. }) => {
                assert_eq!(attr.size, 0);
                assert_eq!(attr.blocks, 1);
                assert_eq!((attr.atime, attr.mtime, attr.ctime, attr.crtime), (0, 0, 0, 0));
                assert_eq!(attr.perm, S_IFDIR as u16);
            }
            other => panic!("no entry: {:?}", other),
        },
        _ => panic!("lookup asks for nothing"),
    }
}
