//! What passes between the bridge and the code that drives it.
//!
//! A callback of the kernel starts a conversation. The bridge answers each
//! turn with a [`Step`]: either the reply for the kernel, which ends the
//! conversation, or an [`Action`] that the driver is to perform, with the
//! [`Pending`] state that the driver hands back together with the
//! [`Outcome`] of the action.
//!
//! The types are generic in how a path (`P`), a byte string (`B`) and a
//! directory listing (`L`) are held: in `RemotePath`, `Vec<u8>` and `Vec` when
//! the code runs, in `PathView`, `Seq<u8>` and `Seq` in contracts.

use crate::ssh_filesystem::attr::{FileAttr, FileKind, RemoteStat};
use crate::ssh_filesystem::errno::{Errno, RemoteError};
use crate::ssh_filesystem::path::{PathView, RemotePath};
use crate::ssh_filesystem::posix::{OpenFlags, RenameFlags, SeekFrom};
use vstd::prelude::*;

verus! {

/// One item of a directory listing as the transport gives it: the path of
/// the item and what the remote side says of it.
#[derive(Debug)]
pub struct DirItem<B> {
    pub path: B,
    pub stat: RemoteStat,
}

/// One entry of a directory as the kernel is told it.
#[derive(Debug)]
pub struct DirEntry<B> {
    pub ino: u64,
    /// The offset at which a later listing goes on after this entry.
    pub offset: i64,
    pub kind: FileKind,
    pub name: B,
}

/// A time that a request sets.
#[derive(Debug, Clone, Copy, PartialEq, Eq, Structural)]
pub enum SetTime {
    /// The time at which the request is served.
    Now,
    /// This many seconds after the epoch; before it, if negative.
    At(i64),
}

/// What the bridge asks the driver to do.
#[allow(inconsistent_fields)]
#[derive(Debug)]
pub enum Action<P, B> {
    /// Ask the remote side about a path, without following a final link.
    Lstat(P),
    /// List a remote directory.
    Readdir(P),
    /// Read the target of a remote link.
    Readlink(P),
    /// Open a remote file.
    Open { path: P, flags: OpenFlags, mode: u32 },
    /// Remove a remote file.
    Unlink(P),
    /// Make a remote directory.
    Mkdir { path: P, mode: u32 },
    /// Remove a remote directory.
    Rmdir(P),
    /// Make a remote link at `path` that points to `target`.
    Symlink { target: B, path: P },
    /// Set what `stat` holds on a remote path.
    Setstat { path: P, stat: RemoteStat },
    /// Rename on the remote side.
    Rename { from: P, to: P, flags: RenameFlags },
    /// Move the position of an open file.
    Seek { fh: u64, from: SeekFrom },
    /// Read at most `max` bytes from an open file.
    Read { fh: u64, max: u32 },
    /// Write bytes of `data` to an open file, as many as it takes.
    Write { fh: u64, data: B },
    /// Put an entry into the reply of a listing.
    AddEntry(DirEntry<B>),
}

/// How an action ended.
#[derive(Debug)]
pub enum Outcome<F, B, L> {
    /// The action failed.
    Failed(RemoteError),
    /// The action was done and has nothing to tell.
    Done,
    /// What the remote side says of the path.
    Stat(RemoteStat),
    /// The items of the directory.
    Listing(L),
    /// The target of the link.
    Link(B),
    /// The file that was opened.
    Opened(F),
    /// The position of the open file, from its start.
    Position(u64),
    /// The bytes that were read; none at the end of the file.
    Data(B),
    /// The number of bytes that were written.
    Written(usize),
    /// The entry is in the reply; `true` if the reply is full now.
    EntryAdded(bool),
}

/// The reply that ends a conversation.
#[derive(Debug)]
pub enum Reply<B> {
    Error(Errno),
    /// The attributes of a directory entry, which the kernel may keep for
    /// `ttl` seconds.
    Entry { attr: FileAttr, ttl: u64, generation: u64 },
    /// The attributes of a file, which the kernel may keep for `ttl` seconds.
    Attr { attr: FileAttr, ttl: u64 },
    Data(B),
    Opened { fh: u64, flags: u32 },
    Written(u32),
    Offset(i64),
    /// The request was served and has nothing to tell.
    Done,
}

/// What the bridge remembers while the driver performs an action.
#[allow(inconsistent_fields)]
#[derive(Debug)]
pub enum Pending<P, B, L> {
    /// The attributes of `path` are awaited, for an entry reply.
    EntryStat { path: P, uid: u32, gid: u32 },
    /// The attributes of `path` are awaited, for an attribute reply.
    AttrStat { path: P, uid: u32, gid: u32 },
    /// `path` is being made; its attributes are asked for next, for an
    /// entry reply.
    ThenEntry { path: P, uid: u32, gid: u32 },
    /// `path` is being changed; its attributes are asked for next, for an
    /// attribute reply.
    ThenAttr { path: P, uid: u32, gid: u32 },
    /// The listing of a directory is awaited; the reply starts at `offset`.
    Listing { offset: i64 },
    /// The entry at `index` of `items` is being put into the reply.
    Emitting { items: L, index: usize },
    /// The target of a link is awaited.
    Link,
    /// A file is being opened with the flags `flags` of the request.
    Opening { flags: i32 },
    /// The position of `fh` is being set, to read `size` bytes.
    ReadSeek { fh: u64, size: u32 },
    /// `buf` has been read from `fh`, of `size` bytes that were asked for.
    Reading { fh: u64, size: u32, buf: B },
    /// The position of `fh` is being set, to write `data`.
    WriteSeek { fh: u64, data: B },
    /// The first `done` bytes of `data` have been written to `fh`.
    Writing { fh: u64, data: B, done: usize },
    /// The position of a file is being moved, to report it.
    Seeking,
    /// `path` is being removed.
    Unlinking { path: P },
    /// The directory `path` is being removed.
    RemovingDir { path: P },
    /// What bears the new name of a rename is being looked at.
    RenameProbe { from: P, to: P, flags: RenameFlags },
    /// What bears the new name of a rename is being removed.
    RenameClear { from: P, to: P, flags: RenameFlags },
    /// The remote side is renaming.
    Renaming { from: P, to: P },
}

/// The answer of the bridge to one turn of a conversation.
#[derive(Debug)]
pub enum Step<P, B, L> {
    /// The conversation ends with this reply.
    Reply(Reply<B>),
    /// The driver is to perform the action and to resume the conversation
    /// with the pending state and the outcome.
    Call(Action<P, B>, Pending<P, B, L>),
}

/// A directory listing as the driver hands it over.
pub type Items = Vec<DirItem<Vec<u8>>>;

/// An action as the driver gets it.
pub type ExecAction = Action<RemotePath, Vec<u8>>;

/// A pending state as the driver holds it.
pub type ExecPending = Pending<RemotePath, Vec<u8>, Items>;

/// An outcome as the driver hands it over.
pub type ExecOutcome<F> = Outcome<F, Vec<u8>, Items>;

/// A step as the driver gets it.
pub type ExecStep = Step<RemotePath, Vec<u8>, Items>;

impl View for DirItem<Vec<u8>> {
    type V = DirItem<Seq<u8>>;

    open spec fn view(&self) -> DirItem<Seq<u8>> {
        DirItem { path: self.path@, stat: self.stat }
    }
}

impl View for DirEntry<Vec<u8>> {
    type V = DirEntry<Seq<u8>>;

    open spec fn view(&self) -> DirEntry<Seq<u8>> {
        DirEntry { ino: self.ino, offset: self.offset, kind: self.kind, name: self.name@ }
    }
}

/// A listing as a sequence of items with their mathematical values.
pub open spec fn items_view(items: Vec<DirItem<Vec<u8>>>) -> Seq<DirItem<Seq<u8>>> {
    items@.map_values(|item: DirItem<Vec<u8>>| item@)
}

impl View for Action<RemotePath, Vec<u8>> {
    type V = Action<PathView, Seq<u8>>;

    open spec fn view(&self) -> Action<PathView, Seq<u8>> {
        match *self {
            Action::Lstat(p) => Action::Lstat(p@),
            Action::Readdir(p) => Action::Readdir(p@),
            Action::Readlink(p) => Action::Readlink(p@),
            Action::Open { path, flags, mode } => Action::Open { path: path@, flags, mode },
            Action::Unlink(p) => Action::Unlink(p@),
            Action::Mkdir { path, mode } => Action::Mkdir { path: path@, mode },
            Action::Rmdir(p) => Action::Rmdir(p@),
            Action::Symlink { target, path } => Action::Symlink { target: target@, path: path@ },
            Action::Setstat { path, stat } => Action::Setstat { path: path@, stat },
            Action::Rename { from, to, flags } => Action::Rename { from: from@, to: to@, flags },
            Action::Seek { fh, from } => Action::Seek { fh, from },
            Action::Read { fh, max } => Action::Read { fh, max },
            Action::Write { fh, data } => Action::Write { fh, data: data@ },
            Action::AddEntry(e) => Action::AddEntry(e@),
        }
    }
}

impl<F> View for Outcome<F, Vec<u8>, Vec<DirItem<Vec<u8>>>> {
    type V = Outcome<F, Seq<u8>, Seq<DirItem<Seq<u8>>>>;

    open spec fn view(&self) -> Outcome<F, Seq<u8>, Seq<DirItem<Seq<u8>>>> {
        match *self {
            Outcome::Failed(e) => Outcome::Failed(e),
            Outcome::Done => Outcome::Done,
            Outcome::Stat(s) => Outcome::Stat(s),
            Outcome::Listing(items) => Outcome::Listing(items_view(items)),
            Outcome::Link(b) => Outcome::Link(b@),
            Outcome::Opened(f) => Outcome::Opened(f),
            Outcome::Position(p) => Outcome::Position(p),
            Outcome::Data(b) => Outcome::Data(b@),
            Outcome::Written(n) => Outcome::Written(n),
            Outcome::EntryAdded(full) => Outcome::EntryAdded(full),
        }
    }
}

impl View for Reply<Vec<u8>> {
    type V = Reply<Seq<u8>>;

    open spec fn view(&self) -> Reply<Seq<u8>> {
        match *self {
            Reply::Error(e) => Reply::Error(e),
            Reply::Entry { attr, ttl, generation } => Reply::Entry { attr, ttl, generation },
            Reply::Attr { attr, ttl } => Reply::Attr { attr, ttl },
            Reply::Data(b) => Reply::Data(b@),
            Reply::Opened { fh, flags } => Reply::Opened { fh, flags },
            Reply::Written(n) => Reply::Written(n),
            Reply::Offset(p) => Reply::Offset(p),
            Reply::Done => Reply::Done,
        }
    }
}

impl View for Pending<RemotePath, Vec<u8>, Vec<DirItem<Vec<u8>>>> {
    type V = Pending<PathView, Seq<u8>, Seq<DirItem<Seq<u8>>>>;

    open spec fn view(&self) -> Pending<PathView, Seq<u8>, Seq<DirItem<Seq<u8>>>> {
        match *self {
            Pending::EntryStat { path, uid, gid } => Pending::EntryStat { path: path@, uid, gid },
            Pending::AttrStat { path, uid, gid } => Pending::AttrStat { path: path@, uid, gid },
            Pending::ThenEntry { path, uid, gid } => Pending::ThenEntry { path: path@, uid, gid },
            Pending::ThenAttr { path, uid, gid } => Pending::ThenAttr { path: path@, uid, gid },
            Pending::Listing { offset } => Pending::Listing { offset },
            Pending::Emitting { items, index } => Pending::Emitting {
                items: items_view(items),
                index,
            },
            Pending::Link => Pending::Link,
            Pending::Opening { flags } => Pending::Opening { flags },
            Pending::ReadSeek { fh, size } => Pending::ReadSeek { fh, size },
            Pending::Reading { fh, size, buf } => Pending::Reading { fh, size, buf: buf@ },
            Pending::WriteSeek { fh, data } => Pending::WriteSeek { fh, data: data@ },
            Pending::Writing { fh, data, done } => Pending::Writing { fh, data: data@, done },
            Pending::Seeking => Pending::Seeking,
            Pending::Unlinking { path } => Pending::Unlinking { path: path@ },
            Pending::RemovingDir { path } => Pending::RemovingDir { path: path@ },
            Pending::RenameProbe { from, to, flags } => Pending::RenameProbe {
                from: from@,
                to: to@,
                flags,
            },
            Pending::RenameClear { from, to, flags } => Pending::RenameClear {
                from: from@,
                to: to@,
                flags,
            },
            Pending::Renaming { from, to } => Pending::Renaming { from: from@, to: to@ },
        }
    }
}

impl View for Step<RemotePath, Vec<u8>, Vec<DirItem<Vec<u8>>>> {
    type V = Step<PathView, Seq<u8>, Seq<DirItem<Seq<u8>>>>;

    open spec fn view(&self) -> Step<PathView, Seq<u8>, Seq<DirItem<Seq<u8>>>> {
        match *self {
            Step::Reply(r) => Step::Reply(r@),
            Step::Call(a, p) => Step::Call(a@, p@),
        }
    }
}

} // verus!
