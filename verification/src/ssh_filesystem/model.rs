//! The bridge as a state machine over mathematical values: what each
//! callback of the kernel starts with, and how a conversation goes on when
//! an action has ended.

use crate::ssh_filesystem::attr::{
    spec_attr, spec_file_kind, spec_file_type, RemoteFileType, RemoteStat,
};
use crate::ssh_filesystem::errno::{remote_errno, rmdir_errno, Errno};
use crate::ssh_filesystem::file_handle::HandleTable;
use crate::ssh_filesystem::inode::InodeTable;
use crate::ssh_filesystem::path::{parse_path, PathView, DOT};
use crate::ssh_filesystem::posix::{
    spec_mkdir_mode, spec_mknod_allowed, spec_mknod_mode, spec_open_flags, spec_rename_flags,
    spec_rename_replaces, spec_seek_from, OpenFlags, RenameFlags, SeekFrom, S_IFDIR,
};
use crate::ssh_filesystem::protocol::{
    Action, DirEntry, DirItem, Outcome, Pending, Reply, SetTime, Step,
};
use vstd::prelude::*;

verus! {

/// A directory listing in contracts.
pub type SpecItems = Seq<DirItem<Seq<u8>>>;

/// A step in contracts.
pub type SpecStep = Step<PathView, Seq<u8>, SpecItems>;

/// A pending state in contracts.
pub type SpecPending = Pending<PathView, Seq<u8>, SpecItems>;

/// An outcome in contracts.
pub type SpecOutcome<F> = Outcome<F, Seq<u8>, SpecItems>;

/// The number of seconds for which the kernel may keep a reply.
pub const TTL: u64 = 1;

/// The mode with which a file is opened on the remote side.
pub const OPEN_MODE: u32 = 0o777;

/// The reply that reports the error `e`.
pub open spec fn fail(e: Errno) -> SpecStep {
    Step::Reply(Reply::Error(e))
}

/// What stands for `.` and `..` in a listing.
pub open spec fn directory_stat() -> RemoteStat {
    RemoteStat { size: None, uid: None, gid: None, perm: Some(S_IFDIR), atime: None, mtime: None }
}

/// A listing with `.` and `..` put in front of it.
pub open spec fn with_dots(items: SpecItems) -> SpecItems {
    seq![
        DirItem { path: seq![DOT], stat: directory_stat() },
        DirItem { path: seq![DOT, DOT], stat: directory_stat() },
    ] + items
}

/// The seconds after the epoch that a request sets a time to: the current
/// time `now` if it says so, and 0 for a time before the epoch.
pub open spec fn resolve_time(t: SetTime, now: u64) -> u64 {
    match t {
        SetTime::Now => now,
        SetTime::At(secs) => if secs < 0 {
            0
        } else {
            secs as u64
        },
    }
}

/// The seconds that an optional time of a request is set to.
pub open spec fn resolve_opt(t: Option<SetTime>, now: u64) -> Option<u64> {
    match t {
        Some(t) => Some(resolve_time(t, now)),
        None => None,
    }
}

/// How many of `n` bytes that were written count, when `done` of `len`
/// bytes had been written before: no more than were left.
pub open spec fn written_so_far(len: nat, done: usize, n: usize) -> nat {
    if done >= len || n >= len - done {
        len
    } else {
        (done + n) as nat
    }
}

/// The bytes of `chunk` that have room in a buffer of `size` bytes that
/// holds `held` bytes.
pub open spec fn accepted(chunk: Seq<u8>, size: u32, held: nat) -> Seq<u8> {
    if held >= size {
        Seq::<u8>::empty()
    } else if chunk.len() <= size - held {
        chunk
    } else {
        chunk.take(size - held)
    }
}

/// The state of the bridge: its two tables.
pub struct BridgeView<F> {
    pub inodes: InodeTable,
    pub handles: HandleTable<F>,
}

impl<F> BridgeView<F> {
    /// The inode table is in order.
    pub open spec fn wf(self) -> bool {
        self.inodes.wf()
    }

    /// The counter of the table of open files has not wrapped round, and
    /// can move once more without doing so.
    pub open spec fn handles_in_order(self) -> bool {
        self.handles.wf() && self.handles.next < u64::MAX
    }

    /// The counter of the inode table has not run out.
    pub open spec fn has_room(self) -> bool {
        self.inodes.next < u64::MAX
    }

    /// Whether a turn of a conversation may register a path that is not
    /// registered yet, so that the counter of the inode table has to move:
    /// when the attributes of such a path have come, and while a listing
    /// goes on.
    pub open spec fn may_register(self, pending: SpecPending, outcome: SpecOutcome<F>) -> bool {
        match pending {
            Pending::EntryStat { path, .. } => outcome is Stat && self.inodes.inode_of(path) is None,
            Pending::AttrStat { path, .. } => outcome is Stat && self.inodes.inode_of(path) is None,
            Pending::Listing { .. } => outcome is Listing,
            Pending::Emitting { .. } => outcome is EntryAdded,
            _ => false,
        }
    }

    /// The path of the entry `name` of the directory `parent`, if `parent`
    /// is registered.
    pub open spec fn child_of(self, parent: u64, name: Seq<u8>) -> Option<PathView> {
        match self.inodes.path_of(parent) {
            Some(p) => Some(p.child(name)),
            None => None,
        }
    }

    /// `lookup`: ask for the attributes of the entry.
    pub open spec fn lookup(self, parent: u64, name: Seq<u8>, uid: u32, gid: u32) -> SpecStep {
        match self.child_of(parent, name) {
            Some(path) => Step::Call(Action::Lstat(path), Pending::EntryStat { path, uid, gid }),
            None => fail(Errno::ENOENT),
        }
    }

    /// `getattr`: ask for the attributes of the path.
    pub open spec fn getattr(self, ino: u64, uid: u32, gid: u32) -> SpecStep {
        match self.inodes.path_of(ino) {
            Some(path) => Step::Call(Action::Lstat(path), Pending::AttrStat { path, uid, gid }),
            None => fail(Errno::ENOENT),
        }
    }

    /// `readdir`: ask for the listing.
    pub open spec fn readdir(self, ino: u64, offset: i64) -> SpecStep {
        match self.inodes.path_of(ino) {
            Some(path) => Step::Call(Action::Readdir(path), Pending::Listing { offset }),
            None => fail(Errno::ENOENT),
        }
    }

    /// `readlink`: ask for the target.
    pub open spec fn readlink(self, ino: u64) -> SpecStep {
        match self.inodes.path_of(ino) {
            Some(path) => Step::Call(Action::Readlink(path), Pending::Link),
            None => fail(Errno::ENOENT),
        }
    }

    /// `open`: open the remote file, each flag of the request turned into its own.
    pub open spec fn open(self, ino: u64, flags: i32) -> SpecStep {
        match self.inodes.path_of(ino) {
            Some(path) => Step::Call(
                Action::Open { path, flags: spec_open_flags(flags), mode: OPEN_MODE },
                Pending::Opening { flags },
            ),
            None => fail(Errno::ENOENT),
        }
    }

    /// `release`: the handle is dropped, whether it was in use or not.
    pub open spec fn release(self, fh: u64) -> (BridgeView<F>, SpecStep) {
        (
            BridgeView { inodes: self.inodes, handles: self.handles.remove(fh) },
            Step::Reply(Reply::Done),
        )
    }

    /// `read`: set the position first.
    pub open spec fn read(self, fh: u64, offset: i64, size: u32) -> SpecStep {
        if self.handles.files.contains_key(fh) {
            Step::Call(
                Action::Seek { fh, from: SeekFrom::Start(offset as u64) },
                Pending::ReadSeek { fh, size },
            )
        } else {
            fail(Errno::EINVAL)
        }
    }

    /// `write`: set the position first.
    pub open spec fn write(self, fh: u64, offset: i64, data: Seq<u8>) -> SpecStep {
        if self.handles.files.contains_key(fh) {
            Step::Call(
                Action::Seek { fh, from: SeekFrom::Start(offset as u64) },
                Pending::WriteSeek { fh, data },
            )
        } else {
            fail(Errno::EINVAL)
        }
    }

    /// `lseek`: an unknown `whence` is refused before the handle is looked
    /// up.
    pub open spec fn lseek(self, fh: u64, offset: i64, whence: i32) -> SpecStep {
        match spec_seek_from(offset, whence) {
            None => fail(Errno::EINVAL),
            Some(from) => if self.handles.files.contains_key(fh) {
                Step::Call(Action::Seek { fh, from }, Pending::Seeking)
            } else {
                fail(Errno::EBADF)
            },
        }
    }

    /// `mknod`: only regular files are made, by opening them with the
    /// creation flag alone.
    pub open spec fn mknod(
        self,
        parent: u64,
        name: Seq<u8>,
        mode: u32,
        umask: u32,
        uid: u32,
        gid: u32,
    ) -> SpecStep {
        if !spec_mknod_allowed(mode) {
            fail(Errno::EPERM)
        } else {
            match self.child_of(parent, name) {
                Some(path) => Step::Call(
                    Action::Open {
                        path,
                        flags: OpenFlags {
                            read: false,
                            write: false,
                            append: false,
                            create: true,
                            truncate: false,
                            exclusive: false,
                        },
                        mode: spec_mknod_mode(mode, umask),
                    },
                    Pending::ThenEntry { path, uid, gid },
                ),
                None => fail(Errno::ENOENT),
            }
        }
    }

    /// `unlink`: remove the remote file.
    pub open spec fn unlink(self, parent: u64, name: Seq<u8>) -> SpecStep {
        match self.child_of(parent, name) {
            Some(path) => Step::Call(Action::Unlink(path), Pending::Unlinking { path }),
            None => fail(Errno::ENOENT),
        }
    }

    /// `mkdir`: make the remote directory.
    pub open spec fn mkdir(
        self,
        parent: u64,
        name: Seq<u8>,
        mode: u32,
        umask: u32,
        uid: u32,
        gid: u32,
    ) -> SpecStep {
        match self.child_of(parent, name) {
            Some(path) => Step::Call(
                Action::Mkdir { path, mode: spec_mkdir_mode(mode, umask) },
                Pending::ThenEntry { path, uid, gid },
            ),
            None => fail(Errno::ENOENT),
        }
    }

    /// `rmdir`: remove the remote directory.
    pub open spec fn rmdir(self, parent: u64, name: Seq<u8>) -> SpecStep {
        match self.child_of(parent, name) {
            Some(path) => Step::Call(Action::Rmdir(path), Pending::RemovingDir { path }),
            None => fail(Errno::ENOENT),
        }
    }

    /// `symlink`: make the remote link.
    pub open spec fn symlink(self, parent: u64, name: Seq<u8>, target: Seq<u8>, uid: u32, gid: u32)
        -> SpecStep {
        match self.child_of(parent, name) {
            Some(path) => Step::Call(
                Action::Symlink { target, path },
                Pending::ThenEntry { path, uid, gid },
            ),
            None => fail(Errno::ENOENT),
        }
    }

    /// `setattr`: set the fields that the request names, and no others.
    pub open spec fn setattr(
        self,
        ino: u64,
        mode: Option<u32>,
        size: Option<u64>,
        atime: Option<SetTime>,
        mtime: Option<SetTime>,
        now: u64,
        uid: u32,
        gid: u32,
    ) -> SpecStep {
        match self.inodes.path_of(ino) {
            Some(path) => Step::Call(
                Action::Setstat {
                    path,
                    stat: RemoteStat {
                        size,
                        uid: None,
                        gid: None,
                        perm: mode,
                        atime: resolve_opt(atime, now),
                        mtime: resolve_opt(mtime, now),
                    },
                },
                Pending::ThenAttr { path, uid, gid },
            ),
            None => fail(Errno::ENOENT),
        }
    }

    /// `rename`: unless the request forbids a replacement, look first at
    /// what bears the new name.
    pub open spec fn rename(
        self,
        parent: u64,
        name: Seq<u8>,
        newparent: u64,
        newname: Seq<u8>,
        flags: u32,
    ) -> SpecStep {
        match self.child_of(parent, name) {
            None => fail(Errno::ENOENT),
            Some(from) => match self.child_of(newparent, newname) {
                None => fail(Errno::ENOENT),
                Some(to) => if spec_rename_replaces(flags) {
                    Step::Call(
                        Action::Lstat(to),
                        Pending::RenameProbe { from, to, flags: spec_rename_flags(flags) },
                    )
                } else {
                    Step::Call(
                        Action::Rename { from, to, flags: spec_rename_flags(flags) },
                        Pending::Renaming { from, to },
                    )
                },
            },
        }
    }

    /// The bridge with another inode table.
    pub open spec fn with_inodes(self, inodes: InodeTable) -> BridgeView<F> {
        BridgeView { inodes, handles: self.handles }
    }

    /// The attributes of `path` have come: the path is registered and its
    /// attributes are the reply. A file of a type that the kernel does not
    /// know is refused and not registered.
    pub open spec fn stat_reply(self, path: PathView, stat: RemoteStat, uid: u32, gid: u32, entry: bool)
        -> (BridgeView<F>, SpecStep) {
        match spec_file_kind(spec_file_type(stat.perm)) {
            Err(e) => (self, fail(e)),
            Ok(kind) => {
                let added = self.inodes.add(path);
                let attr = spec_attr(added.1, stat, kind, uid, gid);
                (
                    self.with_inodes(added.0),
                    if entry {
                        Step::Reply(Reply::Entry { attr, ttl: TTL, generation: 0 })
                    } else {
                        Step::Reply(Reply::Attr { attr, ttl: TTL })
                    },
                )
            },
        }
    }

    /// The entry at `index` of `items` is next in a listing. Past the last
    /// item the listing is complete. `.` and `..` bear the number of the
    /// root; every other item is registered under its path. The name of an
    /// entry is the last component of its path, or the whole path where
    /// there is none.
    pub open spec fn emit(self, items: SpecItems, index: usize) -> (BridgeView<F>, SpecStep) {
        if index >= items.len() {
            (self, Step::Reply(Reply::Done))
        } else {
            let item = items[index as int];
            let path = parse_path(item.path);
            let added = self.inodes.add(path);
            let after = if path.is_dot() {
                self
            } else {
                self.with_inodes(added.0)
            };
            let ino = if path.is_dot() {
                1
            } else {
                added.1
            };
            let name = match path.file_name() {
                Some(n) => n,
                None => item.path,
            };
            match spec_file_kind(spec_file_type(item.stat.perm)) {
                Err(e) => (after, fail(e)),
                Ok(kind) => (
                    after,
                    Step::Call(
                        Action::AddEntry(
                            DirEntry { ino, offset: (index + 1) as i64, kind, name },
                        ),
                        Pending::Emitting { items, index },
                    ),
                ),
            }
        }
    }

    /// More bytes are wanted of a read, unless the buffer is full.
    pub open spec fn read_on(fh: u64, size: u32, buf: Seq<u8>) -> SpecStep {
        if buf.len() >= size {
            Step::Reply(Reply::Data(buf))
        } else {
            Step::Call(
                Action::Read { fh, max: (size - buf.len()) as u32 },
                Pending::Reading { fh, size, buf },
            )
        }
    }

    /// More bytes are to be written, unless all have been.
    pub open spec fn write_on(fh: u64, data: Seq<u8>, done: nat) -> SpecStep {
        if done >= data.len() {
            Step::Reply(Reply::Written(data.len() as u32))
        } else {
            Step::Call(
                Action::Write { fh, data: data.skip(done as int) },
                Pending::Writing { fh, data, done: done as usize },
            )
        }
    }

    /// The remote rename that the pending state names.
    pub open spec fn rename_step(from: PathView, to: PathView, flags: RenameFlags)
        -> SpecStep {
        Step::Call(Action::Rename { from, to, flags }, Pending::Renaming { from, to })
    }

    /// The attributes of `path` were awaited.
    pub open spec fn on_stat(
        self,
        path: PathView,
        uid: u32,
        gid: u32,
        entry: bool,
        outcome: SpecOutcome<F>,
    ) -> (BridgeView<F>, SpecStep) {
        match outcome {
            Outcome::Stat(stat) => self.stat_reply(path, stat, uid, gid, entry),
            Outcome::Failed(e) => (self, fail(remote_errno(e))),
            _ => (self, fail(Errno::EIO)),
        }
    }

    /// `path` was being made or changed: its attributes are asked for next.
    /// A file that was opened to make it is dropped.
    pub open spec fn on_made(
        self,
        path: PathView,
        uid: u32,
        gid: u32,
        entry: bool,
        outcome: SpecOutcome<F>,
    ) -> (BridgeView<F>, SpecStep) {
        let ask = if entry {
            Step::Call(Action::Lstat(path), Pending::EntryStat { path, uid, gid })
        } else {
            Step::Call(Action::Lstat(path), Pending::AttrStat { path, uid, gid })
        };
        match outcome {
            Outcome::Done => (self, ask),
            Outcome::Opened(_) => if entry {
                (self, ask)
            } else {
                (self, fail(Errno::EIO))
            },
            Outcome::Failed(e) => (self, fail(remote_errno(e))),
            _ => (self, fail(Errno::EIO)),
        }
    }

    /// The listing of a directory was awaited: `.` and `..` are put in
    /// front, and the reply starts at the entry that `offset` names.
    pub open spec fn on_listing(self, offset: i64, outcome: SpecOutcome<F>) -> (
        BridgeView<F>,
        SpecStep,
    ) {
        match outcome {
            Outcome::Listing(items) => self.emit(with_dots(items), offset as usize),
            Outcome::Failed(e) => (self, fail(remote_errno(e))),
            _ => (self, fail(Errno::EIO)),
        }
    }

    /// An entry was being put into the reply: the listing stops when the
    /// reply is full, and else goes on with the next entry.
    pub open spec fn on_emitted(self, items: SpecItems, index: usize, outcome: SpecOutcome<F>) -> (
        BridgeView<F>,
        SpecStep,
    ) {
        match outcome {
            Outcome::EntryAdded(full) => if full || index >= items.len() {
                (self, Step::Reply(Reply::Done))
            } else {
                self.emit(items, (index + 1) as usize)
            },
            Outcome::Failed(e) => (self, fail(remote_errno(e))),
            _ => (self, fail(Errno::EIO)),
        }
    }

    /// The target of a link was awaited.
    pub open spec fn on_link(self, outcome: SpecOutcome<F>) -> (BridgeView<F>, SpecStep) {
        match outcome {
            Outcome::Link(target) => (self, Step::Reply(Reply::Data(target))),
            Outcome::Failed(e) => (self, fail(remote_errno(e))),
            _ => (self, fail(Errno::EIO)),
        }
    }

    /// A file was being opened: it gets a handle, and the reply holds the
    /// handle and the flags of the request.
    pub open spec fn on_opened(self, flags: i32, outcome: SpecOutcome<F>) -> (
        BridgeView<F>,
        SpecStep,
    ) {
        match outcome {
            Outcome::Opened(file) => (
                BridgeView { inodes: self.inodes, handles: self.handles.add(file).0 },
                Step::Reply(Reply::Opened { fh: self.handles.add(file).1, flags: flags as u32 }),
            ),
            Outcome::Failed(e) => (self, fail(remote_errno(e))),
            _ => (self, fail(Errno::EIO)),
        }
    }

    /// The position was being set for a read.
    pub open spec fn on_read_seek(self, fh: u64, size: u32, outcome: SpecOutcome<F>) -> (
        BridgeView<F>,
        SpecStep,
    ) {
        match outcome {
            Outcome::Position(_) => (self, Self::read_on(fh, size, Seq::<u8>::empty())),
            Outcome::Failed(e) => (self, fail(remote_errno(e))),
            _ => (self, fail(Errno::EIO)),
        }
    }

    /// Bytes were being read: no bytes mean the end of the file, and the
    /// reply is what has been read; else the bytes that have room are kept.
    pub open spec fn on_data(self, fh: u64, size: u32, buf: Seq<u8>, outcome: SpecOutcome<F>) -> (
        BridgeView<F>,
        SpecStep,
    ) {
        match outcome {
            Outcome::Data(chunk) => if chunk.len() == 0 {
                (self, Step::Reply(Reply::Data(buf)))
            } else {
                (self, Self::read_on(fh, size, buf + accepted(chunk, size, buf.len())))
            },
            Outcome::Failed(e) => (self, fail(remote_errno(e))),
            _ => (self, fail(Errno::EIO)),
        }
    }

    /// The position was being set for a write.
    pub open spec fn on_write_seek(self, fh: u64, data: Seq<u8>, outcome: SpecOutcome<F>) -> (
        BridgeView<F>,
        SpecStep,
    ) {
        match outcome {
            Outcome::Position(_) => (self, Self::write_on(fh, data, 0)),
            Outcome::Failed(e) => (self, fail(remote_errno(e))),
            _ => (self, fail(Errno::EIO)),
        }
    }

    /// Bytes were being written.
    pub open spec fn on_written(
        self,
        fh: u64,
        data: Seq<u8>,
        done: usize,
        outcome: SpecOutcome<F>,
    ) -> (BridgeView<F>, SpecStep) {
        match outcome {
            Outcome::Written(n) => (
                self,
                Self::write_on(fh, data, written_so_far(data.len(), done, n)),
            ),
            Outcome::Failed(e) => (self, fail(remote_errno(e))),
            _ => (self, fail(Errno::EIO)),
        }
    }

    /// The position of a file was being moved, to report it.
    pub open spec fn on_position(self, outcome: SpecOutcome<F>) -> (BridgeView<F>, SpecStep) {
        match outcome {
            Outcome::Position(p) => (self, Step::Reply(Reply::Offset(p as i64))),
            Outcome::Failed(e) => (self, fail(remote_errno(e))),
            _ => (self, fail(Errno::EIO)),
        }
    }

    /// `path` was being removed: once it is gone, its registration is
    /// dropped. A directory that could not be removed is reported by the
    /// rule for directories.
    pub open spec fn on_removed(self, path: PathView, dir: bool, outcome: SpecOutcome<F>) -> (
        BridgeView<F>,
        SpecStep,
    ) {
        match outcome {
            Outcome::Done => (
                self.with_inodes(self.inodes.remove_path(path)),
                Step::Reply(Reply::Done),
            ),
            Outcome::Failed(e) => if dir {
                (self, fail(rmdir_errno(e)))
            } else {
                (self, fail(remote_errno(e)))
            },
            _ => (self, fail(Errno::EIO)),
        }
    }

    /// What bears the new name of a rename was looked at: a directory is
    /// removed as one, anything else as a file, and if nothing could be
    /// seen there the remote side renames at once.
    pub open spec fn on_probe(
        self,
        from: PathView,
        to: PathView,
        flags: RenameFlags,
        outcome: SpecOutcome<F>,
    ) -> (BridgeView<F>, SpecStep) {
        match outcome {
            Outcome::Stat(stat) => if spec_file_type(stat.perm) == RemoteFileType::Directory {
                (self, Step::Call(Action::Rmdir(to), Pending::RenameClear { from, to, flags }))
            } else {
                (self, Step::Call(Action::Unlink(to), Pending::RenameClear { from, to, flags }))
            },
            Outcome::Failed(_) => (self, Self::rename_step(from, to, flags)),
            _ => (self, fail(Errno::EIO)),
        }
    }

    /// What bore the new name of a rename was being removed: once it is
    /// gone, its registration is dropped and the remote side renames.
    pub open spec fn on_cleared(
        self,
        from: PathView,
        to: PathView,
        flags: RenameFlags,
        outcome: SpecOutcome<F>,
    ) -> (BridgeView<F>, SpecStep) {
        match outcome {
            Outcome::Done => (
                self.with_inodes(self.inodes.remove_path(to)),
                Self::rename_step(from, to, flags),
            ),
            Outcome::Failed(e) => (self, fail(remote_errno(e))),
            _ => (self, fail(Errno::EIO)),
        }
    }

    /// The remote side was renaming: once it has, the inode number of the
    /// old path stands for the new path.
    pub open spec fn on_renamed(self, from: PathView, to: PathView, outcome: SpecOutcome<F>) -> (
        BridgeView<F>,
        SpecStep,
    ) {
        match outcome {
            Outcome::Done => (
                self.with_inodes(self.inodes.rename(from, to)),
                Step::Reply(Reply::Done),
            ),
            Outcome::Failed(e) => (self, fail(remote_errno(e))),
            _ => (self, fail(Errno::EIO)),
        }
    }

    /// Law: no turn of a conversation puts the table of open files out of
    /// order or changes what a handle in use stands for, but that a file
    /// that has been opened gets a handle, which was not in use before.
    pub proof fn lemma_handles_stay(self, pending: SpecPending, outcome: SpecOutcome<F>)
        requires
            self.handles.wf(),
        ensures
            self.handles.next < u64::MAX ==> self.resume(pending, outcome).0.handles.wf(),
            forall|fh: u64| #[trigger]
                self.handles.files.contains_key(fh) ==> self.resume(pending, outcome).0.handles.get(
                    fh,
                ) == self.handles.get(fh),
            self.resume(pending, outcome).1 matches Step::Reply(Reply::Opened { fh, flags })
                ==> !self.handles.files.contains_key(fh) && (outcome matches Outcome::Opened(file)
                && self.resume(pending, outcome).0.handles.get(fh) == Some(file)),
            !(self.resume(pending, outcome).1 matches Step::Reply(Reply::Opened { .. }))
                ==> self.resume(pending, outcome).0.handles == self.handles,
    {
    }

    /// Law: a read never replies with more bytes than were asked for, what
    /// has been read is kept, and the read goes on only with more bytes in
    /// the buffer than before and for exactly the bytes that are missing.
    pub proof fn lemma_read_goes_on(
        self,
        fh: u64,
        size: u32,
        buf: Seq<u8>,
        outcome: SpecOutcome<F>,
    )
        requires
            buf.len() < size,
        ensures
            self.on_data(fh, size, buf, outcome).0 == self,
            match self.on_data(fh, size, buf, outcome).1 {
                Step::Reply(Reply::Data(all)) => outcome is Data && all.len() <= size
                    && buf.is_prefix_of(all),
                Step::Reply(Reply::Error(_)) => !(outcome is Data),
                Step::Call(
                    Action::Read { fh: asked, max },
                    Pending::Reading { fh: kept, size: of, buf: more },
                ) => {
                    &&& outcome is Data
                    &&& asked == fh && kept == fh && of == size
                    &&& buf.is_prefix_of(more)
                    &&& buf.len() < more.len() < size
                    &&& max == size - more.len()
                },
                _ => false,
            },
    {
        if let Outcome::Data(chunk) = outcome {
            let more = buf + accepted(chunk, size, buf.len());
            assert(buf.is_prefix_of(more)) by {
                assert(more.subrange(0, buf.len() as int) =~= buf);
            }
            assert(buf.is_prefix_of(buf)) by {
                assert(buf.subrange(0, buf.len() as int) =~= buf);
            }
        }
    }

    /// Law: a write replies with the length of the data once all of it has
    /// been written, and till then goes on with exactly the bytes that
    /// have not been written; it never goes back.
    pub proof fn lemma_write_goes_on(
        self,
        fh: u64,
        data: Seq<u8>,
        done: usize,
        outcome: SpecOutcome<F>,
    )
        requires
            done < data.len() <= usize::MAX,
        ensures
            self.on_written(fh, data, done, outcome).0 == self,
            match self.on_written(fh, data, done, outcome).1 {
                Step::Reply(Reply::Written(n)) => outcome matches Outcome::Written(count) && done
                    + count >= data.len() && n == data.len() as u32,
                Step::Reply(Reply::Error(_)) => !(outcome is Written),
                Step::Call(
                    Action::Write { fh: asked, data: rest },
                    Pending::Writing { fh: kept, data: all, done: now },
                ) => {
                    &&& outcome matches Outcome::Written(count) && now == done + count
                    &&& asked == fh && kept == fh && all == data
                    &&& now < data.len()
                    &&& rest == data.skip(now as int)
                },
                _ => false,
            },
    {
    }

    /// How a conversation goes on when an action has ended. A failure of
    /// the action ends the conversation with the error that stands for it,
    /// but for the look at the new name of a rename. An outcome of a kind
    /// that the pending state does not await is reported as `EIO`.
    pub open spec fn resume(self, pending: SpecPending, outcome: SpecOutcome<F>) -> (
        BridgeView<F>,
        SpecStep,
    ) {
        match pending {
            Pending::EntryStat { path, uid, gid } => self.on_stat(path, uid, gid, true, outcome),
            Pending::AttrStat { path, uid, gid } => self.on_stat(path, uid, gid, false, outcome),
            Pending::ThenEntry { path, uid, gid } => self.on_made(path, uid, gid, true, outcome),
            Pending::ThenAttr { path, uid, gid } => self.on_made(path, uid, gid, false, outcome),
            Pending::Listing { offset } => self.on_listing(offset, outcome),
            Pending::Emitting { items, index } => self.on_emitted(items, index, outcome),
            Pending::Link => self.on_link(outcome),
            Pending::Opening { flags } => self.on_opened(flags, outcome),
            Pending::ReadSeek { fh, size } => self.on_read_seek(fh, size, outcome),
            Pending::Reading { fh, size, buf } => self.on_data(fh, size, buf, outcome),
            Pending::WriteSeek { fh, data } => self.on_write_seek(fh, data, outcome),
            Pending::Writing { fh, data, done } => self.on_written(fh, data, done, outcome),
            Pending::Seeking => self.on_position(outcome),
            Pending::Unlinking { path } => self.on_removed(path, false, outcome),
            Pending::RemovingDir { path } => self.on_removed(path, true, outcome),
            Pending::RenameProbe { from, to, flags } => self.on_probe(from, to, flags, outcome),
            Pending::RenameClear { from, to, flags } => self.on_cleared(from, to, flags, outcome),
            Pending::Renaming { from, to } => self.on_renamed(from, to, outcome),
        }
    }
}

} // verus!
