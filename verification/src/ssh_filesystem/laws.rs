//! What holds of whole conversations with the bridge, for every state of its
//! tables and every answer of the remote side.

use crate::ssh_filesystem::attr::{
    spec_attr, spec_file_kind, spec_file_type, FileKind, RemoteFileType, RemoteStat,
};
use crate::ssh_filesystem::errno::{Errno, RemoteError, SESSION_DIR_NOT_EMPTY};
use crate::ssh_filesystem::inode::{lemma_inverse_pair, ROOT_INODE};
use crate::ssh_filesystem::model::{
    directory_stat, fail, with_dots, BridgeView, SpecItems, SpecStep, TTL,
};
use crate::ssh_filesystem::path::{lemma_spelled_path_reads_back, parse_path, PathView, DOT};
use crate::ssh_filesystem::posix::{spec_mkdir_mode, S_IFDIR, S_IFMT};
use crate::ssh_filesystem::protocol::{Action, DirEntry, Outcome, Pending, Reply, Step};
use vstd::prelude::*;

verus! {

/// What a read replies when the remote side answers with the chunks
/// `chunks`, one after the other, to a read of `size` bytes that holds `buf`
/// so far; or the step at which the read waits when the chunks have run out.
pub open spec fn read_through<F>(
    b: BridgeView<F>,
    fh: u64,
    size: u32,
    buf: Seq<u8>,
    chunks: Seq<Seq<u8>>,
) -> SpecStep
    decreases chunks.len(),
{
    if chunks.len() == 0 {
        BridgeView::<F>::read_on(fh, size, buf)
    } else {
        match b.on_data(fh, size, buf, Outcome::Data(chunks.first())).1 {
            Step::Call(_, Pending::Reading { fh: f, size: s, buf: more }) => read_through(
                b,
                f,
                s,
                more,
                chunks.drop_first(),
            ),
            other => other,
        }
    }
}

/// What a write replies when the remote side takes `counts[0]`,
/// `counts[1]`, ... bytes, one after the other, of `data` of which `done`
/// bytes are written so far; or the step at which the write waits when the
/// counts have run out.
pub open spec fn write_through<F>(
    b: BridgeView<F>,
    fh: u64,
    data: Seq<u8>,
    done: usize,
    counts: Seq<usize>,
) -> SpecStep
    decreases counts.len(),
{
    if counts.len() == 0 {
        BridgeView::<F>::write_on(fh, data, done as nat)
    } else {
        match b.on_written(fh, data, done, Outcome::Written(counts.first())).1 {
            Step::Call(_, Pending::Writing { fh: f, data: d, done: now }) => write_through(
                b,
                f,
                d,
                now,
                counts.drop_first(),
            ),
            other => other,
        }
    }
}

/// The sum of `counts`.
pub open spec fn total(counts: Seq<usize>) -> nat
    decreases counts.len(),
{
    if counts.len() == 0 {
        0
    } else {
        counts.first() as nat + total(counts.drop_first())
    }
}

impl<F> BridgeView<F> {
    /// Law: the attributes of a number that is registered are asked for by
    /// its path, and the reply to what the remote side says bears the same
    /// number, the size that was sent, one block more than the size holds
    /// whole blocks of 512 bytes, and the ids of the caller; the tables
    /// stay as they are. A failure is reported by its error.
    pub proof fn lemma_getattr(
        self,
        ino: u64,
        path: PathView,
        stat: RemoteStat,
        kind: FileKind,
        uid: u32,
        gid: u32,
        e: RemoteError,
    )
        requires
            self.wf(),
            self.inodes.path_of(ino) == Some(path),
            spec_file_kind(spec_file_type(stat.perm)) == Ok::<FileKind, Errno>(kind),
        ensures
            self.getattr(ino, uid, gid) == Step::<PathView, Seq<u8>, SpecItems>::Call(
                Action::Lstat(path),
                Pending::AttrStat { path, uid, gid },
            ),
            self.resume(Pending::AttrStat { path, uid, gid }, Outcome::Stat(stat)) == (
                self,
                Step::<PathView, Seq<u8>, SpecItems>::Reply(
                    Reply::Attr { attr: spec_attr(ino, stat, kind, uid, gid), ttl: TTL },
                ),
            ),
            spec_attr(ino, stat, kind, uid, gid).ino == ino,
            spec_attr(ino, stat, kind, uid, gid).size == stat.size.unwrap_or(0),
            spec_attr(ino, stat, kind, uid, gid).blocks == stat.size.unwrap_or(0) / 512 + 1,
            spec_attr(ino, stat, kind, uid, gid).uid == uid,
            spec_attr(ino, stat, kind, uid, gid).gid == gid,
            spec_attr(ino, stat, kind, uid, gid).nlink == 1,
            spec_attr(ino, stat, kind, uid, gid).blksize == 512,
            self.resume(Pending::AttrStat { path, uid, gid }, Outcome::Failed(e)) == (
                self,
                fail(crate::ssh_filesystem::errno::remote_errno(e)),
            ),
    {
        lemma_inverse_pair(self.inodes.paths, path);
    }

    /// Law: when the attributes of an entry have come, the entry is
    /// registered, the reply bears the number that its path has from then
    /// on, and no other path gets or loses a number. A path that was
    /// registered keeps its number.
    pub proof fn lemma_entry_is_registered(
        self,
        path: PathView,
        stat: RemoteStat,
        kind: FileKind,
        uid: u32,
        gid: u32,
    )
        requires
            self.wf(),
            self.inodes.inode_of(path) is Some || self.has_room(),
            spec_file_kind(spec_file_type(stat.perm)) == Ok::<FileKind, Errno>(kind),
        ensures
            ({
                let (after, step) = self.resume(
                    Pending::EntryStat { path, uid, gid },
                    Outcome::Stat(stat),
                );
                &&& after.wf()
                &&& after.handles == self.handles
                &&& after.inodes.inode_of(path) is Some
                &&& after.inodes.path_of(after.inodes.inode_of(path)->0) == Some(path)
                &&& self.inodes.inode_of(path) is Some ==> after == self
                &&& self.inodes.inode_of(path) is None ==> after.inodes.inode_of(path) == Some(
                    self.inodes.next,
                )
                &&& forall|other: PathView|
                    other != path ==> #[trigger] after.inodes.inode_of(other)
                        == self.inodes.inode_of(other)
                &&& step == Step::<PathView, Seq<u8>, SpecItems>::Reply(
                    Reply::Entry {
                        attr: spec_attr(after.inodes.inode_of(path)->0, stat, kind, uid, gid),
                        ttl: TTL,
                        generation: 0,
                    },
                )
            }),
    {
        self.inodes.lemma_add_idempotent(path);
    }

    /// Law: a directory is made with the permission bits of the mode that
    /// the mask does not name; once it is made, its attributes are asked
    /// for, and the reply to them is the entry of the directory.
    pub proof fn lemma_mkdir(
        self,
        parent: u64,
        dir: PathView,
        name: Seq<u8>,
        mode: u32,
        umask: u32,
        uid: u32,
        gid: u32,
    )
        requires
            self.inodes.path_of(parent) == Some(dir),
        ensures
            self.mkdir(parent, name, mode, umask, uid, gid) == Step::<
                PathView,
                Seq<u8>,
                SpecItems,
            >::Call(
                Action::Mkdir { path: dir.child(name), mode: spec_mkdir_mode(mode, umask) },
                Pending::ThenEntry { path: dir.child(name), uid, gid },
            ),
            spec_mkdir_mode(mode, umask) == mode & !umask & 0o777,
            self.resume(Pending::ThenEntry { path: dir.child(name), uid, gid }, Outcome::Done) == (
                self,
                Step::<PathView, Seq<u8>, SpecItems>::Call(
                    Action::Lstat(dir.child(name)),
                    Pending::EntryStat { path: dir.child(name), uid, gid },
                ),
            ),
    {
    }

    /// Law: once a file or a directory has been removed on the remote
    /// side, its path has no number, the counter stays where it is, so that
    /// the number is not handed out again, and no other path loses its
    /// number. A directory that is not empty is reported as such, also
    /// where the session reports it by its code.
    pub proof fn lemma_removed_is_forgotten(self, path: PathView, dir: bool)
        requires
            self.wf(),
        ensures
            ({
                let (after, step) = self.resume(
                    if dir {
                        Pending::RemovingDir { path }
                    } else {
                        Pending::Unlinking { path }
                    },
                    Outcome::Done,
                );
                &&& step == Step::<PathView, Seq<u8>, SpecItems>::Reply(Reply::Done)
                &&& after.inodes.inode_of(path) is None
                &&& after.inodes.next == self.inodes.next
                &&& after.handles == self.handles
                &&& forall|other: PathView|
                    other != path ==> #[trigger] after.inodes.inode_of(other)
                        == self.inodes.inode_of(other)
            }),
            self.resume(
                Pending::RemovingDir { path },
                Outcome::Failed(RemoteError::Session(SESSION_DIR_NOT_EMPTY)),
            ) == (self, fail(Errno::ENOTEMPTY)),
            self.resume(Pending::RemovingDir { path }, Outcome::Failed(RemoteError::Sftp(18))) == (
                self,
                fail(Errno::ENOTEMPTY),
            ),
            self.resume(Pending::RemovingDir { path }, Outcome::Failed(RemoteError::Sftp(2))) == (
                self,
                fail(Errno::ENOENT),
            ),
    {
        let m = self.inodes.paths;
        let after = self.inodes.remove_path(path);
        if m.contains_value(path) {
            lemma_inverse_pair(m, path);
        }
        if after.paths.contains_value(path) {
            let k = choose|k: u64| after.paths.contains_key(k) && after.paths[k] == path;
            assert(m.contains_key(k) && m[k] == path);
        }
        assert forall|other: PathView| other != path implies #[trigger] after.inode_of(other)
            == self.inodes.inode_of(other) by {
            crate::ssh_filesystem::inode::lemma_submap_injective(m, after.paths);
            if m.contains_value(other) {
                lemma_inverse_pair(m, other);
                let k = m.invert()[other];
                assert(after.paths.contains_key(k) && after.paths[k] == other);
                lemma_inverse_pair(after.paths, other);
            }
            if after.paths.contains_value(other) {
                let k = choose|k: u64| after.paths.contains_key(k) && after.paths[k] == other;
                assert(m.contains_key(k) && m[k] == other);
            }
        }
    }

    /// Law: once the remote side has renamed, the new path bears the
    /// number that the old path bore, and the old path bears none.
    pub proof fn lemma_renamed_keeps_inode(self, from: PathView, to: PathView)
        requires
            self.wf(),
            self.inodes.inode_of(from) is Some,
            from != to,
        ensures
            ({
                let (after, step) = self.resume(Pending::Renaming { from, to }, Outcome::Done);
                &&& step == Step::<PathView, Seq<u8>, SpecItems>::Reply(Reply::Done)
                &&& after.wf()
                &&& after.inodes.inode_of(to) == self.inodes.inode_of(from)
                &&& after.inodes.inode_of(from) is None
                &&& after.inodes.path_of(self.inodes.inode_of(from)->0) == Some(to)
                &&& after.inodes.next == self.inodes.next
            }),
    {
        self.inodes.lemma_rename_moves(from, to);
    }

    /// Law: a listing starts with `.` and then `..`, both directories with
    /// the number of the root, whatever the directory holds; they are
    /// followed by the offsets 1 and 2, and they register nothing.
    pub proof fn lemma_listing_starts_with_dots(self, items: SpecItems)
        ensures
            self.emit(with_dots(items), 0) == (
                self,
                Step::<PathView, Seq<u8>, SpecItems>::Call(
                    Action::AddEntry(
                        DirEntry {
                            ino: ROOT_INODE,
                            offset: 1,
                            kind: FileKind::Directory,
                            name: seq![DOT],
                        },
                    ),
                    Pending::Emitting { items: with_dots(items), index: 0 },
                ),
            ),
            self.emit(with_dots(items), 1) == (
                self,
                Step::<PathView, Seq<u8>, SpecItems>::Call(
                    Action::AddEntry(
                        DirEntry {
                            ino: ROOT_INODE,
                            offset: 2,
                            kind: FileKind::Directory,
                            name: seq![DOT, DOT],
                        },
                    ),
                    Pending::Emitting { items: with_dots(items), index: 1 },
                ),
            ),
            forall|k: int| 0 <= k < items.len() ==> #[trigger] with_dots(items)[k + 2] == items[k],
            with_dots(items).len() == items.len() + 2,
    {
        let one = PathView { absolute: false, parts: seq![seq![DOT]] };
        let two = PathView { absolute: false, parts: seq![seq![DOT, DOT]] };
        let d1 = seq![DOT];
        let d2 = seq![DOT, DOT];
        assert(d1.len() == 1 && d1[0] == DOT);
        assert(d2.len() == 2 && d2[0] == DOT && d2[1] == DOT);
        assert(one.clean()) by {
            assert forall|i: int| 0 <= i < one.parts.len() implies crate::ssh_filesystem::path::clean_part(
                #[trigger] one.parts[i],
                !one.absolute && i == 0,
            ) by {
                assert(one.parts[i] == d1);
                assert(!d1.contains(crate::ssh_filesystem::path::SEPARATOR));
            }
        }
        assert(two.clean()) by {
            assert forall|i: int| 0 <= i < two.parts.len() implies crate::ssh_filesystem::path::clean_part(
                #[trigger] two.parts[i],
                !two.absolute && i == 0,
            ) by {
                assert(two.parts[i] == d2);
                assert(!d2.contains(crate::ssh_filesystem::path::SEPARATOR));
            }
        }
        lemma_spelled_path_reads_back(one);
        lemma_spelled_path_reads_back(two);
        assert(one.bytes() =~= d1);
        assert(two.bytes() =~= d2);
        assert(parse_path(d1) == one);
        assert(parse_path(d2) == two);
        assert(one.parts.last() == d1);
        assert(two.parts.last() == d2);
        assert(S_IFDIR & S_IFMT == S_IFDIR) by (bit_vector);
        assert(spec_file_type(directory_stat().perm) == RemoteFileType::Directory);
        let all = with_dots(items);
        assert(all[0].path == d1 && all[0].stat == directory_stat());
        assert(all[1].path == d2 && all[1].stat == directory_stat());
    }

    /// Law: an entry of a listing other than `.` and `..` is registered
    /// under its path and bears the number that the path has from then on;
    /// it is followed by the offset one past its place and named by the
    /// last component of its path.
    pub proof fn lemma_listing_entry(self, all: SpecItems, k: usize, kind: FileKind)
        requires
            self.wf(),
            k < all.len(),
            k < i64::MAX,
            !parse_path(all[k as int].path).is_dot(),
            self.inodes.inode_of(parse_path(all[k as int].path)) is Some || self.has_room(),
            spec_file_kind(spec_file_type(all[k as int].stat.perm)) == Ok::<FileKind, Errno>(kind),
        ensures
            ({
                let path = parse_path(all[k as int].path);
                let (after, step) = self.emit(all, k);
                &&& after.wf()
                &&& after.handles == self.handles
                &&& after.inodes == self.inodes.add(path).0
                &&& after.inodes.inode_of(path) is Some
                &&& after.inodes.path_of(after.inodes.inode_of(path)->0) == Some(path)
                &&& step == Step::<PathView, Seq<u8>, SpecItems>::Call(
                    Action::AddEntry(
                        DirEntry {
                            ino: after.inodes.inode_of(path)->0,
                            offset: (k + 1) as i64,
                            kind,
                            name: match path.file_name() {
                                Some(n) => n,
                                None => all[k as int].path,
                            },
                        },
                    ),
                    Pending::Emitting { items: all, index: k },
                )
                &&& (k + 1) as i64 == k + 1
            }),
    {
        self.inodes.lemma_add_idempotent(parse_path(all[k as int].path));
    }

    /// Law: an item that is listed under the path that the name `name` has
    /// in the directory `dir` is the entry `name` of `dir`: its path is the
    /// one under which a lookup of `name` registers it, so it bears the
    /// same number, and its name is `name`.
    pub proof fn lemma_listed_child(dir: PathView, name: Seq<u8>)
        requires
            dir.clean(),
            crate::ssh_filesystem::path::clean_part(name, false),
            name != seq![DOT, DOT],
        ensures
            parse_path(dir.child(name).bytes()) == dir.child(name),
            !dir.child(name).is_dot(),
            dir.child(name).file_name() == Some(name),
    {
        crate::ssh_filesystem::path::lemma_child_reads_back(dir, name);
        let c = dir.child(name);
        assert(c.parts.last() == name);
        if c.parts == seq![seq![DOT]] {
            assert(seq![seq![DOT]].last() == seq![DOT]);
        }
        if c.parts == seq![seq![DOT, DOT]] {
            assert(seq![seq![DOT, DOT]].last() == seq![DOT, DOT]);
        }
    }

    /// Law: when the remote side answers a read with chunks that all have
    /// room in the buffer, none of them empty, and then with no bytes, the
    /// reply is what was held followed by the chunks in order, and nothing
    /// more.
    pub proof fn lemma_read_collects(self, fh: u64, size: u32, buf: Seq<u8>, chunks: Seq<Seq<u8>>)
        requires
            buf.len() + chunks.flatten().len() < size,
            forall|i: int| 0 <= i < chunks.len() ==> (#[trigger] chunks[i]).len() > 0,
        ensures
            read_through(self, fh, size, buf, chunks.push(Seq::<u8>::empty())) == Step::<
                PathView,
                Seq<u8>,
                SpecItems,
            >::Reply(Reply::Data(buf + chunks.flatten())),
        decreases chunks.len(),
    {
        let feed = chunks.push(Seq::<u8>::empty());
        if chunks.len() == 0 {
            assert(feed.first().len() == 0);
            assert(chunks.flatten() =~= Seq::<u8>::empty());
            assert(buf + chunks.flatten() =~= buf);
        } else {
            let head = chunks.first();
            let rest = chunks.drop_first();
            assert(chunks.flatten() == head + rest.flatten());
            assert(feed.first() == head);
            assert(feed.drop_first() =~= rest.push(Seq::<u8>::empty()));
            let more = buf + head;
            assert forall|i: int| 0 <= i < rest.len() implies (#[trigger] rest[i]).len() > 0 by {
                assert(rest[i] == chunks[i + 1]);
            }
            self.lemma_read_collects(fh, size, more, rest);
            assert(more + rest.flatten() =~= buf + chunks.flatten());
        }
    }

    /// Law: when the remote side takes the data of a write in pieces, none
    /// of them empty, that together are the data and no more, the reply is
    /// the length of the data.
    pub proof fn lemma_write_completes(self, fh: u64, data: Seq<u8>, done: usize, counts: Seq<usize>)
        requires
            data.len() <= usize::MAX,
            done < data.len(),
            counts.len() > 0,
            done + total(counts) == data.len(),
            forall|i: int| 0 <= i < counts.len() ==> #[trigger] counts[i] > 0,
        ensures
            write_through(self, fh, data, done, counts) == Step::<
                PathView,
                Seq<u8>,
                SpecItems,
            >::Reply(Reply::Written(data.len() as u32)),
        decreases counts.len(),
    {
        let rest = counts.drop_first();
        assert(total(counts) == counts.first() + total(rest));
        if rest.len() == 0 {
            assert(total(rest) == 0);
        } else {
            assert forall|i: int| 0 <= i < rest.len() implies #[trigger] rest[i] > 0 by {
                assert(rest[i] == counts[i + 1]);
            }
            assert(rest[0] > 0);
            assert(total(rest) >= rest.first()) by {
                assert(total(rest) == rest.first() + total(rest.drop_first()));
            }
            let now = (done + counts.first()) as usize;
            self.lemma_write_completes(fh, data, now, rest);
        }
    }
}

} // verus!
