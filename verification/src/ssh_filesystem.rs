//! The filesystem bridge and the tables it keeps.
//!
//! The bridge does no I/O of its own. Each callback of the kernel is a method
//! of [`Sshfs`] that returns the first step of a conversation; the driver
//! performs the action of a step and hands its outcome to
//! [`Sshfs::resume`], until a step holds the reply.

pub mod path;
pub mod bi_hash_map;
pub mod inode;
pub mod file_handle;
pub mod errno;
pub mod posix;
pub mod attr;
pub mod protocol;
pub mod model;
pub mod laws;

use crate::ssh_filesystem::attr::{file_kind, make_attr, RemoteStat};
use crate::ssh_filesystem::errno::{errno_of_remote, errno_of_rmdir, Errno};
use crate::ssh_filesystem::file_handle::Fhandles;
use crate::ssh_filesystem::inode::{Inodes, FIRST_INODE, ROOT_INODE};
use crate::ssh_filesystem::model::{
    accepted, resolve_opt, resolve_time, with_dots, BridgeView, OPEN_MODE, TTL,
};
use crate::ssh_filesystem::path::{copy_bytes, PathView, RemotePath, DOT};
use crate::ssh_filesystem::posix::{
    mkdir_mode, mknod_allowed, mknod_mode, offset_from_start, open_flags, rename_flags,
    rename_replaces, seek_from, OpenFlags, RenameFlags, SeekFrom,
};
use crate::ssh_filesystem::protocol::{
    items_view, Action, DirEntry, DirItem, ExecOutcome, ExecPending, ExecStep, Items, Outcome,
    Pending, Reply, SetTime, Step,
};
use vstd::prelude::*;

verus! {

/// The bridge: the inode table and the table of open files of one mount.
/// `F` is what the driver keeps for an open remote file.
pub struct Sshfs<F> {
    inodes: Inodes,
    fhandls: Fhandles<F>,
}

impl<F> View for Sshfs<F> {
    type V = BridgeView<F>;

    closed spec fn view(&self) -> BridgeView<F> {
        BridgeView { inodes: self.inodes@, handles: self.fhandls@ }
    }
}

/// The reply that reports the error `e`.
fn fail(e: Errno) -> (res: ExecStep)
    ensures
        res@ == crate::ssh_filesystem::model::fail(e),
{
    Step::Reply(Reply::Error(e))
}

/// The seconds after the epoch that a request sets a time to.
pub fn resolve(t: SetTime, now: u64) -> (res: u64)
    ensures
        res == resolve_time(t, now),
{
    match t {
        SetTime::Now => now,
        SetTime::At(secs) => if secs < 0 {
            0
        } else {
            secs as u64
        },
    }
}

fn resolve_optional(t: Option<SetTime>, now: u64) -> (res: Option<u64>)
    ensures
        res == resolve_opt(t, now),
{
    match t {
        Some(t) => Some(resolve(t, now)),
        None => None,
    }
}

impl<F> Sshfs<F> {
    /// The invariant of the bridge.
    pub closed spec fn wf(&self) -> bool {
        self.inodes.wf()
    }

    /// What `wf` says of the value of the bridge.
    pub proof fn lemma_wf(&self)
        requires
            self.wf(),
        ensures
            self@.wf(),
    {
        self.inodes.lemma_wf();
    }

    /// A bridge for the remote tree at `path`: the root's inode number
    /// stands for `path`, and no file is open.
    pub fn new(path: RemotePath) -> (res: Self)
        ensures
            res.wf(),
            res@.has_room(),
            res@.inodes.paths == Map::<u64, PathView>::empty().insert(ROOT_INODE, path@),
            res@.inodes.path_of(ROOT_INODE) == Some(path@),
            res@.inodes.next == FIRST_INODE,
            res@.handles.files == Map::<u64, F>::empty(),
            res@.handles.next == 0,
            res@.handles_in_order(),
    {
        Sshfs { inodes: Inodes::with_root(path), fhandls: Fhandles::new() }
    }

    /// Whether the counter of the inode table can still move on. While it
    /// can, conversations can be resumed.
    pub fn has_room(&self) -> (res: bool)
        ensures
            res == self@.has_room(),
    {
        self.inodes.has_room()
    }

    /// The open file that `fh` stands for, if it is in use.
    pub fn file(&self, fh: u64) -> (res: Option<&F>)
        ensures
            match res {
                Some(file) => self@.handles.get(fh) == Some(*file),
                None => self@.handles.get(fh) is None,
            },
    {
        self.fhandls.get_file(fh)
    }

    fn child_path(&self, parent: u64, name: &[u8]) -> (res: Option<RemotePath>)
        requires
            self.wf(),
        ensures
            res is Some <==> self@.child_of(parent, name@) is Some,
            res matches Some(p) ==> Some(p@) == self@.child_of(parent, name@),
    {
        match self.inodes.get_path(parent) {
            Some(p) => Some(p.child(name)),
            None => None,
        }
    }

    /// Looks up the entry `name` of the directory `parent`.
    pub fn lookup(&self, parent: u64, name: &[u8], uid: u32, gid: u32) -> (res: ExecStep)
        requires
            self.wf(),
        ensures
            res@ == self@.lookup(parent, name@, uid, gid),
    {
        match self.child_path(parent, name) {
            Some(path) => {
                let asked = path.clone();
                Step::Call(Action::Lstat(asked), Pending::EntryStat { path, uid, gid })
            },
            None => fail(Errno::ENOENT),
        }
    }

    /// Gets the attributes of `ino`.
    pub fn getattr(&self, ino: u64, uid: u32, gid: u32) -> (res: ExecStep)
        requires
            self.wf(),
        ensures
            res@ == self@.getattr(ino, uid, gid),
    {
        match self.inodes.get_path(ino) {
            Some(path) => {
                let asked = path.clone();
                Step::Call(Action::Lstat(asked), Pending::AttrStat { path, uid, gid })
            },
            None => fail(Errno::ENOENT),
        }
    }

    /// Lists the directory `ino` from `offset` on.
    pub fn readdir(&self, ino: u64, offset: i64) -> (res: ExecStep)
        requires
            self.wf(),
        ensures
            res@ == self@.readdir(ino, offset),
    {
        match self.inodes.get_path(ino) {
            Some(path) => Step::Call(Action::Readdir(path), Pending::Listing { offset }),
            None => fail(Errno::ENOENT),
        }
    }

    /// Reads the target of the link `ino`.
    pub fn readlink(&self, ino: u64) -> (res: ExecStep)
        requires
            self.wf(),
        ensures
            res@ == self@.readlink(ino),
    {
        match self.inodes.get_path(ino) {
            Some(path) => Step::Call(Action::Readlink(path), Pending::Link),
            None => fail(Errno::ENOENT),
        }
    }

    /// Opens the file `ino`.
    pub fn open(&self, ino: u64, flags: i32) -> (res: ExecStep)
        requires
            self.wf(),
        ensures
            res@ == self@.open(ino, flags),
    {
        match self.inodes.get_path(ino) {
            Some(path) => Step::Call(
                Action::Open { path, flags: open_flags(flags), mode: OPEN_MODE },
                Pending::Opening { flags },
            ),
            None => fail(Errno::ENOENT),
        }
    }

    /// Releases the handle `fh`; the open file it stood for is dropped.
    pub fn release(&mut self, fh: u64) -> (res: ExecStep)
        requires
            old(self).wf(),
        ensures
            final(self).wf(),
            (final(self)@, res@) == old(self)@.release(fh),
            final(self)@.handles.get(fh) is None,
            old(self)@.handles.wf() ==> final(self)@.handles.wf(),
    {
        self.fhandls.del_file(fh);
        Step::Reply(Reply::Done)
    }

    /// Reads `size` bytes at `offset` from the open file `fh`.
    pub fn read(&self, fh: u64, offset: i64, size: u32) -> (res: ExecStep)
        ensures
            res@ == self@.read(fh, offset, size),
    {
        match self.fhandls.get_file(fh) {
            Some(_) => Step::Call(
                Action::Seek { fh, from: SeekFrom::Start(offset_from_start(offset)) },
                Pending::ReadSeek { fh, size },
            ),
            None => fail(Errno::EINVAL),
        }
    }

    /// Writes `data` at `offset` to the open file `fh`.
    pub fn write(&self, fh: u64, offset: i64, data: Vec<u8>) -> (res: ExecStep)
        ensures
            res@ == self@.write(fh, offset, data@),
    {
        match self.fhandls.get_file(fh) {
            Some(_) => Step::Call(
                Action::Seek { fh, from: SeekFrom::Start(offset_from_start(offset)) },
                Pending::WriteSeek { fh, data },
            ),
            None => fail(Errno::EINVAL),
        }
    }

    /// Moves the position of the open file `fh`.
    pub fn lseek(&self, fh: u64, offset: i64, whence: i32) -> (res: ExecStep)
        ensures
            res@ == self@.lseek(fh, offset, whence),
    {
        let from = match seek_from(offset, whence) {
            Some(from) => from,
            None => {
                return fail(Errno::EINVAL);
            },
        };
        match self.fhandls.get_file(fh) {
            Some(_) => Step::Call(Action::Seek { fh, from }, Pending::Seeking),
            None => fail(Errno::EBADF),
        }
    }

    /// Makes the regular file `name` in the directory `parent`.
    pub fn mknod(&self, parent: u64, name: &[u8], mode: u32, umask: u32, uid: u32, gid: u32) -> (res:
        ExecStep)
        requires
            self.wf(),
        ensures
            res@ == self@.mknod(parent, name@, mode, umask, uid, gid),
    {
        if !mknod_allowed(mode) {
            return fail(Errno::EPERM);
        }
        match self.child_path(parent, name) {
            Some(path) => {
                let asked = path.clone();
                let flags = OpenFlags {
                    read: false,
                    write: false,
                    append: false,
                    create: true,
                    truncate: false,
                    exclusive: false,
                };
                Step::Call(
                    Action::Open { path: asked, flags, mode: mknod_mode(mode, umask) },
                    Pending::ThenEntry { path, uid, gid },
                )
            },
            None => fail(Errno::ENOENT),
        }
    }

    /// Removes the file `name` of the directory `parent`.
    pub fn unlink(&self, parent: u64, name: &[u8]) -> (res: ExecStep)
        requires
            self.wf(),
        ensures
            res@ == self@.unlink(parent, name@),
    {
        match self.child_path(parent, name) {
            Some(path) => {
                let asked = path.clone();
                Step::Call(Action::Unlink(asked), Pending::Unlinking { path })
            },
            None => fail(Errno::ENOENT),
        }
    }

    /// Makes the directory `name` in the directory `parent`.
    pub fn mkdir(&self, parent: u64, name: &[u8], mode: u32, umask: u32, uid: u32, gid: u32) -> (res:
        ExecStep)
        requires
            self.wf(),
        ensures
            res@ == self@.mkdir(parent, name@, mode, umask, uid, gid),
    {
        match self.child_path(parent, name) {
            Some(path) => {
                let asked = path.clone();
                Step::Call(
                    Action::Mkdir { path: asked, mode: mkdir_mode(mode, umask) },
                    Pending::ThenEntry { path, uid, gid },
                )
            },
            None => fail(Errno::ENOENT),
        }
    }

    /// Removes the directory `name` of the directory `parent`.
    pub fn rmdir(&self, parent: u64, name: &[u8]) -> (res: ExecStep)
        requires
            self.wf(),
        ensures
            res@ == self@.rmdir(parent, name@),
    {
        match self.child_path(parent, name) {
            Some(path) => {
                let asked = path.clone();
                Step::Call(Action::Rmdir(asked), Pending::RemovingDir { path })
            },
            None => fail(Errno::ENOENT),
        }
    }

    /// Makes the link `name` in the directory `parent`, pointing to `link`.
    pub fn symlink(&self, parent: u64, name: &[u8], link: Vec<u8>, uid: u32, gid: u32) -> (res:
        ExecStep)
        requires
            self.wf(),
        ensures
            res@ == self@.symlink(parent, name@, link@, uid, gid),
    {
        match self.child_path(parent, name) {
            Some(path) => {
                let asked = path.clone();
                Step::Call(
                    Action::Symlink { target: link, path: asked },
                    Pending::ThenEntry { path, uid, gid },
                )
            },
            None => fail(Errno::ENOENT),
        }
    }

    /// Sets the attributes of `ino` that the request names. `now` is the
    /// current time in seconds after the epoch.
    pub fn setattr(
        &self,
        ino: u64,
        mode: Option<u32>,
        size: Option<u64>,
        atime: Option<SetTime>,
        mtime: Option<SetTime>,
        now: u64,
        uid: u32,
        gid: u32,
    ) -> (res: ExecStep)
        requires
            self.wf(),
        ensures
            res@ == self@.setattr(ino, mode, size, atime, mtime, now, uid, gid),
    {
        let stat = RemoteStat {
            size,
            uid: None,
            gid: None,
            perm: mode,
            atime: resolve_optional(atime, now),
            mtime: resolve_optional(mtime, now),
        };
        match self.inodes.get_path(ino) {
            Some(path) => {
                let asked = path.clone();
                Step::Call(
                    Action::Setstat { path: asked, stat },
                    Pending::ThenAttr { path, uid, gid },
                )
            },
            None => fail(Errno::ENOENT),
        }
    }

    /// Renames the entry `name` of `parent` to the entry `newname` of
    /// `newparent`.
    pub fn rename(&self, parent: u64, name: &[u8], newparent: u64, newname: &[u8], flags: u32) -> (res:
        ExecStep)
        requires
            self.wf(),
        ensures
            res@ == self@.rename(parent, name@, newparent, newname@, flags),
    {
        let from = match self.child_path(parent, name) {
            Some(p) => p,
            None => {
                return fail(Errno::ENOENT);
            },
        };
        let to = match self.child_path(newparent, newname) {
            Some(p) => p,
            None => {
                return fail(Errno::ENOENT);
            },
        };
        let how = rename_flags(flags);
        if rename_replaces(flags) {
            let asked = to.clone();
            Step::Call(Action::Lstat(asked), Pending::RenameProbe { from, to, flags: how })
        } else {
            rename_step(from, to, how)
        }
    }
}

fn rename_step(from: RemotePath, to: RemotePath, flags: RenameFlags) -> (res: ExecStep)
    ensures
        res@ == BridgeView::<()>::rename_step(from@, to@, flags),
{
    let a = from.clone();
    let b = to.clone();
    Step::Call(Action::Rename { from: a, to: b, flags }, Pending::Renaming { from, to })
}

/// More bytes are wanted of a read, unless the buffer is full.
fn read_on(fh: u64, size: u32, buf: Vec<u8>) -> (res: ExecStep)
    ensures
        res@ == BridgeView::<()>::read_on(fh, size, buf@),
{
    if buf.len() >= size as usize {
        Step::Reply(Reply::Data(buf))
    } else {
        let max = size - buf.len() as u32;
        Step::Call(Action::Read { fh, max }, Pending::Reading { fh, size, buf })
    }
}

/// More bytes are to be written, unless all have been.
fn write_on(fh: u64, data: Vec<u8>, done: usize) -> (res: ExecStep)
    ensures
        res@ == BridgeView::<()>::write_on(fh, data@, done as nat),
{
    if done >= data.len() {
        let n = #[verifier::truncate]
        (data.len() as u32);
        Step::Reply(Reply::Written(n))
    } else {
        let mut rest: Vec<u8> = Vec::new();
        let mut i: usize = done;
        while i < data.len()
            invariant
                done <= i <= data.len(),
                rest@ == data@.subrange(done as int, i as int),
            decreases data.len() - i,
        {
            rest.push(data[i]);
            assert(data@.subrange(done as int, i as int + 1) =~= data@.subrange(
                done as int,
                i as int,
            ).push(data@[i as int]));
            i += 1;
        }
        assert(rest@ =~= data@.skip(done as int));
        Step::Call(Action::Write { fh, data: rest }, Pending::Writing { fh, data, done })
    }
}

/// Puts into `buf` the bytes of `chunk` that have room in a buffer of
/// `size` bytes.
fn accept(buf: &mut Vec<u8>, chunk: &Vec<u8>, size: u32)
    ensures
        final(buf)@ == old(buf)@ + accepted(chunk@, size, old(buf)@.len()),
{
    let ghost start = buf@;
    let mut i: usize = 0;
    while i < chunk.len() && buf.len() < size as usize
        invariant
            i <= chunk.len(),
            buf@ == start + chunk@.take(i as int),
            i == 0 || start.len() + i <= size,
        decreases chunk.len() - i,
    {
        buf.push(chunk[i]);
        assert(chunk@.take(i as int + 1) =~= chunk@.take(i as int).push(chunk@[i as int]));
        assert(buf@ =~= start + chunk@.take(i as int + 1));
        i += 1;
    }
    proof {
        let acc = accepted(chunk@, size, start.len());
        if start.len() >= size {
            assert(i == 0);
            assert(chunk@.take(0) =~= Seq::<u8>::empty());
        } else if chunk@.len() <= size - start.len() {
            assert(i == chunk.len());
            assert(chunk@.take(i as int) =~= chunk@);
        } else {
            assert(i == size - start.len());
        }
        assert(buf@ =~= start + acc);
    }
}

/// The listing `items` with `.` and `..` put in front of it.
fn put_dots(items: Items) -> (res: Items)
    ensures
        items_view(res) == with_dots(items_view(items)),
{
    let mut res = items;
    let mut dot: Vec<u8> = Vec::new();
    dot.push(DOT);
    let mut dots: Vec<u8> = Vec::new();
    dots.push(DOT);
    dots.push(DOT);
    assert(dot@ =~= seq![DOT]);
    assert(dots@ =~= seq![DOT, DOT]);
    res.insert(0, DirItem { path: dots, stat: RemoteStat::directory() });
    res.insert(0, DirItem { path: dot, stat: RemoteStat::directory() });
    assert(items_view(res) =~= with_dots(items_view(items)));
    res
}

impl<F> Sshfs<F> {
    /// The attributes of `path` have come.
    fn stat_reply(&mut self, path: RemotePath, stat: RemoteStat, uid: u32, gid: u32, entry: bool)
        -> (res: ExecStep)
        requires
            old(self).wf(),
            old(self)@.has_room() || old(self)@.inodes.inode_of(path@) is Some,
        ensures
            final(self).wf(),
            (final(self)@, res@) == old(self)@.stat_reply(path@, stat, uid, gid, entry),
    {
        let kind = match file_kind(stat.file_type()) {
            Ok(kind) => kind,
            Err(e) => {
                return fail(e);
            },
        };
        let ino = self.inodes.add(&path);
        let attr = make_attr(ino, &stat, kind, uid, gid);
        if entry {
            Step::Reply(Reply::Entry { attr, ttl: TTL, generation: 0 })
        } else {
            Step::Reply(Reply::Attr { attr, ttl: TTL })
        }
    }

    /// The entry at `index` of `items` is next in a listing.
    fn emit(&mut self, items: Items, index: usize) -> (res: ExecStep)
        requires
            old(self).wf(),
            old(self)@.has_room(),
        ensures
            final(self).wf(),
            (final(self)@, res@) == old(self)@.emit(items_view(items), index),
    {
        if index >= items.len() {
            return Step::Reply(Reply::Done);
        }
        assert(items_view(items)[index as int] == items@[index as int]@);
        let path = RemotePath::from_bytes(items[index].path.as_slice());
        let ino = if path.is_dot() {
            ROOT_INODE
        } else {
            self.inodes.add(&path)
        };
        let name = match path.file_name() {
            Some(n) => n,
            None => copy_bytes(items[index].path.as_slice()),
        };
        match file_kind(items[index].stat.file_type()) {
            Err(e) => fail(e),
            Ok(kind) => {
                let offset = #[verifier::truncate]
                ((index + 1) as i64);
                Step::Call(
                    Action::AddEntry(DirEntry { ino, offset, kind, name }),
                    Pending::Emitting { items, index },
                )
            },
        }
    }

    fn on_stat(
        &mut self,
        path: RemotePath,
        uid: u32,
        gid: u32,
        entry: bool,
        outcome: ExecOutcome<F>,
    ) -> (res: ExecStep)
        requires
            old(self).wf(),
            old(self)@.has_room() || !(outcome@ is Stat && old(self)@.inodes.inode_of(path@) is None),
        ensures
            final(self).wf(),
            (final(self)@, res@) == old(self)@.on_stat(path@, uid, gid, entry, outcome@),
    {
        match outcome {
            Outcome::Stat(stat) => self.stat_reply(path, stat, uid, gid, entry),
            Outcome::Failed(e) => fail(errno_of_remote(&e)),
            _ => fail(Errno::EIO),
        }
    }

    fn on_made(&self, path: RemotePath, uid: u32, gid: u32, entry: bool, outcome: ExecOutcome<F>)
        -> (res: ExecStep)
        ensures
            (self@, res@) == self@.on_made(path@, uid, gid, entry, outcome@),
    {
        let proceed = match outcome {
            Outcome::Done => true,
            Outcome::Opened(_) => entry,
            Outcome::Failed(e) => {
                return fail(errno_of_remote(&e));
            },
            _ => false,
        };
        if !proceed {
            return fail(Errno::EIO);
        }
        let asked = path.clone();
        if entry {
            Step::Call(Action::Lstat(asked), Pending::EntryStat { path, uid, gid })
        } else {
            Step::Call(Action::Lstat(asked), Pending::AttrStat { path, uid, gid })
        }
    }

    fn on_listing(&mut self, offset: i64, outcome: ExecOutcome<F>) -> (res: ExecStep)
        requires
            old(self).wf(),
            old(self)@.has_room() || !(outcome@ is Listing),
        ensures
            final(self).wf(),
            (final(self)@, res@) == old(self)@.on_listing(offset, outcome@),
    {
        match outcome {
            Outcome::Listing(items) => {
                let start = #[verifier::truncate]
                (offset as usize);
                self.emit(put_dots(items), start)
            },
            Outcome::Failed(e) => fail(errno_of_remote(&e)),
            _ => fail(Errno::EIO),
        }
    }

    fn on_emitted(&mut self, items: Items, index: usize, outcome: ExecOutcome<F>) -> (res:
        ExecStep)
        requires
            old(self).wf(),
            old(self)@.has_room() || !(outcome@ is EntryAdded),
        ensures
            final(self).wf(),
            (final(self)@, res@) == old(self)@.on_emitted(items_view(items), index, outcome@),
    {
        match outcome {
            Outcome::EntryAdded(full) => {
                if full || index >= items.len() {
                    Step::Reply(Reply::Done)
                } else {
                    self.emit(items, index + 1)
                }
            },
            Outcome::Failed(e) => fail(errno_of_remote(&e)),
            _ => fail(Errno::EIO),
        }
    }

    fn on_link(&self, outcome: ExecOutcome<F>) -> (res: ExecStep)
        ensures
            (self@, res@) == self@.on_link(outcome@),
    {
        match outcome {
            Outcome::Link(target) => Step::Reply(Reply::Data(target)),
            Outcome::Failed(e) => fail(errno_of_remote(&e)),
            _ => fail(Errno::EIO),
        }
    }

    fn on_opened(&mut self, flags: i32, outcome: ExecOutcome<F>) -> (res: ExecStep)
        requires
            old(self).wf(),
        ensures
            final(self).wf(),
            (final(self)@, res@) == old(self)@.on_opened(flags, outcome@),
    {
        match outcome {
            Outcome::Opened(file) => {
                let fh = self.fhandls.add_file(file);
                let bits = #[verifier::truncate]
                (flags as u32);
                Step::Reply(Reply::Opened { fh, flags: bits })
            },
            Outcome::Failed(e) => fail(errno_of_remote(&e)),
            _ => fail(Errno::EIO),
        }
    }

    fn on_read_seek(&self, fh: u64, size: u32, outcome: ExecOutcome<F>) -> (res: ExecStep)
        ensures
            (self@, res@) == self@.on_read_seek(fh, size, outcome@),
    {
        match outcome {
            Outcome::Position(_) => read_on(fh, size, Vec::new()),
            Outcome::Failed(e) => fail(errno_of_remote(&e)),
            _ => fail(Errno::EIO),
        }
    }

    fn on_data(&self, fh: u64, size: u32, buf: Vec<u8>, outcome: ExecOutcome<F>) -> (res: ExecStep)
        ensures
            (self@, res@) == self@.on_data(fh, size, buf@, outcome@),
    {
        match outcome {
            Outcome::Data(chunk) => {
                if chunk.len() == 0 {
                    Step::Reply(Reply::Data(buf))
                } else {
                    let mut buf = buf;
                    accept(&mut buf, &chunk, size);
                    read_on(fh, size, buf)
                }
            },
            Outcome::Failed(e) => fail(errno_of_remote(&e)),
            _ => fail(Errno::EIO),
        }
    }

    fn on_write_seek(&self, fh: u64, data: Vec<u8>, outcome: ExecOutcome<F>) -> (res: ExecStep)
        ensures
            (self@, res@) == self@.on_write_seek(fh, data@, outcome@),
    {
        match outcome {
            Outcome::Position(_) => write_on(fh, data, 0),
            Outcome::Failed(e) => fail(errno_of_remote(&e)),
            _ => fail(Errno::EIO),
        }
    }

    fn on_written(&self, fh: u64, data: Vec<u8>, done: usize, outcome: ExecOutcome<F>) -> (res:
        ExecStep)
        ensures
            (self@, res@) == self@.on_written(fh, data@, done, outcome@),
    {
        match outcome {
            Outcome::Written(n) => {
                let so_far = if done >= data.len() || n >= data.len() - done {
                    data.len()
                } else {
                    done + n
                };
                write_on(fh, data, so_far)
            },
            Outcome::Failed(e) => fail(errno_of_remote(&e)),
            _ => fail(Errno::EIO),
        }
    }

    fn on_position(&self, outcome: ExecOutcome<F>) -> (res: ExecStep)
        ensures
            (self@, res@) == self@.on_position(outcome@),
    {
        match outcome {
            Outcome::Position(p) => {
                let at = #[verifier::truncate]
                (p as i64);
                Step::Reply(Reply::Offset(at))
            },
            Outcome::Failed(e) => fail(errno_of_remote(&e)),
            _ => fail(Errno::EIO),
        }
    }

    fn on_removed(&mut self, path: RemotePath, dir: bool, outcome: ExecOutcome<F>) -> (res:
        ExecStep)
        requires
            old(self).wf(),
        ensures
            final(self).wf(),
            (final(self)@, res@) == old(self)@.on_removed(path@, dir, outcome@),
    {
        match outcome {
            Outcome::Done => {
                self.inodes.del_inode_with_path(&path);
                Step::Reply(Reply::Done)
            },
            Outcome::Failed(e) => {
                if dir {
                    fail(errno_of_rmdir(&e))
                } else {
                    fail(errno_of_remote(&e))
                }
            },
            _ => fail(Errno::EIO),
        }
    }

    fn on_probe(&self, from: RemotePath, to: RemotePath, flags: RenameFlags, outcome: ExecOutcome<F>)
        -> (res: ExecStep)
        ensures
            (self@, res@) == self@.on_probe(from@, to@, flags, outcome@),
    {
        match outcome {
            Outcome::Stat(stat) => {
                let asked = to.clone();
                if stat.is_dir() {
                    Step::Call(Action::Rmdir(asked), Pending::RenameClear { from, to, flags })
                } else {
                    Step::Call(Action::Unlink(asked), Pending::RenameClear { from, to, flags })
                }
            },
            Outcome::Failed(_) => rename_step(from, to, flags),
            _ => fail(Errno::EIO),
        }
    }

    fn on_cleared(
        &mut self,
        from: RemotePath,
        to: RemotePath,
        flags: RenameFlags,
        outcome: ExecOutcome<F>,
    ) -> (res: ExecStep)
        requires
            old(self).wf(),
        ensures
            final(self).wf(),
            (final(self)@, res@) == old(self)@.on_cleared(from@, to@, flags, outcome@),
    {
        match outcome {
            Outcome::Done => {
                self.inodes.del_inode_with_path(&to);
                rename_step(from, to, flags)
            },
            Outcome::Failed(e) => fail(errno_of_remote(&e)),
            _ => fail(Errno::EIO),
        }
    }

    fn on_renamed(&mut self, from: RemotePath, to: RemotePath, outcome: ExecOutcome<F>) -> (res:
        ExecStep)
        requires
            old(self).wf(),
        ensures
            final(self).wf(),
            (final(self)@, res@) == old(self)@.on_renamed(from@, to@, outcome@),
    {
        match outcome {
            Outcome::Done => {
                self.inodes.rename(&from, &to);
                Step::Reply(Reply::Done)
            },
            Outcome::Failed(e) => fail(errno_of_remote(&e)),
            _ => fail(Errno::EIO),
        }
    }

    /// Goes on with a conversation: `outcome` is how the action ended that
    /// was handed out together with `pending`. The counter of the inode
    /// table must not have run out where the turn may register a path.
    pub fn resume(&mut self, pending: ExecPending, outcome: ExecOutcome<F>) -> (res: ExecStep)
        requires
            old(self).wf(),
            old(self)@.has_room() || !old(self)@.may_register(pending@, outcome@),
        ensures
            final(self).wf(),
            (final(self)@, res@) == old(self)@.resume(pending@, outcome@),
            old(self)@.handles_in_order() ==> final(self)@.handles.wf(),
            old(self)@.handles.wf() ==> (res@ matches Step::Reply(Reply::Opened { fh, flags })
                ==> !old(self)@.handles.files.contains_key(fh)),
    {
        proof {
            if old(self)@.handles.wf() {
                old(self)@.lemma_handles_stay(pending@, outcome@);
            }
        }
        match pending {
            Pending::EntryStat { path, uid, gid } => self.on_stat(path, uid, gid, true, outcome),
            Pending::AttrStat { path, uid, gid } => self.on_stat(path, uid, gid, false, outcome),
            Pending::ThenEntry { path, uid, gid } => self.on_made(path, uid, gid, true, outcome),
            Pending::ThenAttr { path, uid, gid } => self.on_made(path, uid, gid, false, outcome),
            Pending::Listing { offset } => self.on_listing(offset, outcome),
            Pending::Emitting { items, index } => self.on_emitted(items, index, outcome),
            Pending::Link => self.on_link(outcome),
            Pending::Opening { flags } => self.on_opened(flags, outcome),
            Pending::ReadSeek { fh, size } => self.on_read_seek(fh, size, outcome),
            Pending::Reading { fh, size, buf } => self.on_data(fh, size, buf, outcome),
            Pending::WriteSeek { fh, data } => self.on_write_seek(fh, data, outcome),
            Pending::Writing { fh, data, done } => self.on_written(fh, data, done, outcome),
            Pending::Seeking => self.on_position(outcome),
            Pending::Unlinking { path } => self.on_removed(path, false, outcome),
            Pending::RemovingDir { path } => self.on_removed(path, true, outcome),
            Pending::RenameProbe { from, to, flags } => self.on_probe(from, to, flags, outcome),
            Pending::RenameClear { from, to, flags } => self.on_cleared(from, to, flags, outcome),
            Pending::Renaming { from, to } => self.on_renamed(from, to, outcome),
        }
    }
}

} // verus!
