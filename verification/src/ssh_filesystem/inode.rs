//! The table of inode numbers: which number stands for which remote path.

use crate::ssh_filesystem::bi_hash_map::{
    lemma_insert_binds, spec_insert, spec_remove_right, BiHashMap,
};
use crate::ssh_filesystem::path::{PathView, RemotePath};
use vstd::prelude::*;

verus! {

/// The inode number of the root of the exported tree.
pub const ROOT_INODE: u64 = 1;

/// The first inode number that is handed out for a path other than the root.
pub const FIRST_INODE: u64 = 2;

/// The mathematical value of an [`Inodes`] table.
pub struct InodeTable {
    /// The path that each registered inode number stands for.
    pub paths: Map<u64, PathView>,
    /// The number that the next new path gets.
    pub next: u64,
}

impl InodeTable {
    /// No two numbers stand for one path, every registered number is at least
    /// 1 and below the counter, and the counter has left the root's number
    /// behind.
    pub open spec fn wf(self) -> bool {
        &&& self.paths.is_injective()
        &&& self.paths.dom().finite()
        &&& self.next >= FIRST_INODE
        &&& forall|ino: u64| #[trigger] self.paths.contains_key(ino) ==> 1 <= ino < self.next
    }

    /// The inode number registered for `path`, if there is one.
    pub open spec fn inode_of(self, path: PathView) -> Option<u64> {
        if self.paths.contains_value(path) {
            Some(self.paths.invert()[path])
        } else {
            None
        }
    }

    /// The path registered for `ino`, if there is one.
    pub open spec fn path_of(self, ino: u64) -> Option<PathView> {
        if self.paths.contains_key(ino) {
            Some(self.paths[ino])
        } else {
            None
        }
    }

    /// The table after `path` has been registered, and the number it has.
    pub open spec fn add(self, path: PathView) -> (InodeTable, u64) {
        match self.inode_of(path) {
            Some(ino) => (self, ino),
            None => (
                InodeTable {
                    paths: self.paths.insert(self.next, path),
                    next: (self.next + 1) as u64,
                },
                self.next,
            ),
        }
    }

    /// The table after the registration of `ino` has been dropped.
    pub open spec fn remove_inode(self, ino: u64) -> InodeTable {
        InodeTable { paths: self.paths.remove(ino), next: self.next }
    }

    /// The table after the registration of `path` has been dropped.
    pub open spec fn remove_path(self, path: PathView) -> InodeTable {
        InodeTable { paths: spec_remove_right(self.paths, path), next: self.next }
    }

    /// The table after the number of `old_path` has been bound to `new_path`
    /// instead. A number that `new_path` had before is dropped. Nothing
    /// changes if `old_path` is not registered.
    pub open spec fn rename(self, old_path: PathView, new_path: PathView) -> InodeTable {
        match self.inode_of(old_path) {
            Some(ino) => InodeTable {
                paths: spec_insert(self.paths.remove(ino), ino, new_path),
                next: self.next,
            },
            None => self,
        }
    }

    /// Law: registering a path twice gives the same number and the same
    /// table as registering it once, and one registration moves the counter
    /// by one at most. The number is never 0, and no other path gets or
    /// loses a number.
    pub proof fn lemma_add_idempotent(self, path: PathView)
        requires
            self.wf(),
            self.inode_of(path) is Some || self.next < u64::MAX,
        ensures
            self.add(path).0.wf(),
            self.add(path).0.inode_of(path) == Some(self.add(path).1),
            self.add(path).0.add(path) == self.add(path),
            self.next <= self.add(path).0.next <= self.next + 1,
            self.add(path).0.next == self.next + 1 ==> self.inode_of(path) is None,
            1 <= self.add(path).1 < self.add(path).0.next,
            self.add(path).0.path_of(self.add(path).1) == Some(path),
            self.inode_of(path) is None ==> self.add(path).1 == self.next && self.add(path).0.next
                == self.next + 1,
            self.inode_of(path) is Some ==> self.add(path).0 == self,
            forall|ino: u64|
                ino != self.add(path).1 ==> #[trigger] self.add(path).0.path_of(ino) == self.path_of(
                    ino,
                ),
            forall|other: PathView|
                other != path ==> #[trigger] self.add(path).0.inode_of(other) == self.inode_of(other),
    {
        let after = self.add(path).0;
        let ino = self.add(path).1;
        assert forall|other: PathView| other != path implies #[trigger] after.inode_of(other)
            == self.inode_of(other) by {
            if self.inode_of(path) is None {
                assert(!self.paths.contains_key(self.next));
                if self.paths.contains_value(other) {
                    lemma_inverse_pair(self.paths, other);
                    let k = self.paths.invert()[other];
                    assert(after.paths.contains_key(k) && after.paths[k] == other);
                }
                if after.paths.contains_value(other) {
                    let k = choose|k: u64| after.paths.contains_key(k) && after.paths[k] == other;
                    assert(k != self.next);
                    assert(self.paths.contains_key(k) && self.paths[k] == other);
                    assert(after.paths.is_injective()) by {
                        assert forall|x: u64, y: u64|
                            x != y && after.paths.dom().contains(x) && after.paths.dom().contains(
                                y,
                            ) implies after.paths[x] != after.paths[y] by {
                            if x != self.next && y != self.next {
                                assert(self.paths.dom().contains(x) && self.paths.dom().contains(
                                    y,
                                ));
                            } else if x == self.next {
                                assert(self.paths.contains_key(y));
                            } else {
                                assert(self.paths.contains_key(x));
                            }
                        }
                    }
                    lemma_inverse_pair(after.paths, other);
                    lemma_inverse_pair(self.paths, other);
                }
            }
        }
        if self.paths.contains_value(path) {
            lemma_inverse_pair(self.paths, path);
        } else {
            assert(!self.paths.contains_key(self.next));
            assert(after.paths.contains_key(ino) && after.paths[ino] == path);
            assert forall|x: u64, y: u64|
                x != y && after.paths.dom().contains(x) && after.paths.dom().contains(
                    y,
                ) implies after.paths[x] != after.paths[y] by {
                if x != ino && y != ino {
                    assert(self.paths.dom().contains(x) && self.paths.dom().contains(y));
                } else if x == ino {
                    assert(self.paths.contains_key(y));
                } else {
                    assert(self.paths.contains_key(x));
                }
            }
            lemma_inverse_pair(after.paths, path);
        }
    }

    /// Law: after a path that is registered has been renamed to another
    /// path, the old path has no number, and the new path has the number
    /// that the old path had.
    pub proof fn lemma_rename_moves(self, old_path: PathView, new_path: PathView)
        requires
            self.wf(),
            self.inode_of(old_path) is Some,
            old_path != new_path,
        ensures
            self.rename(old_path, new_path).wf(),
            self.rename(old_path, new_path).inode_of(old_path) is None,
            self.rename(old_path, new_path).inode_of(new_path) == self.inode_of(old_path),
            self.rename(old_path, new_path).path_of(self.inode_of(old_path)->0) == Some(new_path),
    {
        let ino = self.inode_of(old_path)->0;
        let after = self.rename(old_path, new_path);
        lemma_inverse_pair(self.paths, old_path);
        let m0 = self.paths.remove(ino);
        assert(m0.is_injective()) by {
            assert forall|x: u64, y: u64|
                x != y && m0.dom().contains(x) && m0.dom().contains(y) implies m0[x] != m0[y] by {
                assert(self.paths.dom().contains(x) && self.paths.dom().contains(y));
            }
        }
        lemma_insert_binds(m0, ino, new_path);
        lemma_inverse_pair(after.paths, new_path);
        if after.paths.contains_value(old_path) {
            let k = choose|k: u64| after.paths.contains_key(k) && after.paths[k] == old_path;
            assert(k != ino);
            assert(m0.contains_key(k) && m0[k] == old_path);
            assert(self.paths.contains_key(k) && self.paths[k] == old_path);
        }
        assert forall|k: u64| #[trigger] after.paths.contains_key(k) implies 1 <= k
            < after.next by {
            if k != ino {
                assert(m0.contains_key(k));
                assert(self.paths.contains_key(k));
            }
        }
    }
}

/// The table of inode numbers. Numbers are handed out in rising order from
/// a counter and are never handed out twice.
#[derive(Debug)]
pub struct Inodes {
    list: BiHashMap<u64, RemotePath>,
    next_inode: u64,
}

impl View for Inodes {
    type V = InodeTable;

    closed spec fn view(&self) -> InodeTable {
        InodeTable { paths: self.list@, next: self.next_inode }
    }
}

impl Inodes {
    /// The invariant of the table.
    pub closed spec fn wf(&self) -> bool {
        &&& self.list.wf()
        &&& self@.wf()
    }

    /// What `wf` says of the value of the table.
    pub proof fn lemma_wf(&self)
        requires
            self.wf(),
        ensures
            self@.wf(),
    {
    }

    /// A table without registrations, whose counter stands after the number
    /// of the root.
    pub fn new() -> (res: Self)
        ensures
            res.wf(),
            res@.paths == Map::<u64, PathView>::empty(),
            res@.next == FIRST_INODE,
    {
        Inodes { list: BiHashMap::new(), next_inode: FIRST_INODE }
    }

    /// A table in which the root's number stands for `root`, and nothing
    /// else is registered.
    pub fn with_root(root: RemotePath) -> (res: Self)
        ensures
            res.wf(),
            res@.paths == Map::<u64, PathView>::empty().insert(ROOT_INODE, root@),
            res@.path_of(ROOT_INODE) == Some(root@),
            res@.inode_of(root@) == Some(ROOT_INODE),
            res@.next == FIRST_INODE,
    {
        let mut list: BiHashMap<u64, RemotePath> = BiHashMap::new();
        list.insert_no_check(ROOT_INODE, root);
        proof {
            list.lemma_mutual_inverses();
            assert(list@.contains_key(ROOT_INODE));
            lemma_inverse_pair(list@, root@);
        }
        Inodes { list, next_inode: FIRST_INODE }
    }

    /// Registers `path` and returns its number. A path that is registered
    /// already keeps its number; a new path gets the counter's number, and
    /// the counter moves on.
    pub fn add(&mut self, path: &RemotePath) -> (ino: u64)
        requires
            old(self).wf(),
            old(self)@.inode_of(path@) is Some || old(self)@.next < u64::MAX,
        ensures
            final(self).wf(),
            final(self)@ == old(self)@.add(path@).0,
            ino == old(self)@.add(path@).1,
    {
        proof {
            self@.lemma_add_idempotent(path@);
        }
        match self.list.get_left(path) {
            Some(i) => *i,
            None => {
                let inode = self.next_inode;
                self.next_inode = inode + 1;
                assert(!self.list@.contains_key(inode));
                self.list.insert_no_check(inode, path.clone());
                inode
            },
        }
    }

    /// The number registered for `path`, if there is one.
    pub fn get_inode(&self, path: &RemotePath) -> (res: Option<u64>)
        requires
            self.wf(),
        ensures
            res == self@.inode_of(path@),
    {
        match self.list.get_left(path) {
            Some(i) => Some(*i),
            None => None,
        }
    }

    /// The path registered for `inode`, if there is one.
    pub fn get_path(&self, inode: u64) -> (res: Option<RemotePath>)
        requires
            self.wf(),
        ensures
            res is Some <==> self@.paths.contains_key(inode),
            res matches Some(p) ==> Some(p@) == self@.path_of(inode),
    {
        match self.list.get_right(&inode) {
            Some(p) => Some(p.clone()),
            None => None,
        }
    }

    /// Drops the registration of `inode` and returns the number if it was
    /// registered.
    pub fn del_inode(&mut self, inode: u64) -> (res: Option<u64>)
        requires
            old(self).wf(),
        ensures
            final(self).wf(),
            final(self)@ == old(self)@.remove_inode(inode),
            res == if old(self)@.paths.contains_key(inode) {
                Some(inode)
            } else {
                None
            },
    {
        match self.list.remove_left(&inode) {
            Some(_) => {
                proof {
                    self.lemma_after_removal(*old(self));
                }
                Some(inode)
            },
            None => {
                proof {
                    self.lemma_after_removal(*old(self));
                }
                None
            },
        }
    }

    /// Drops the registration of `path` and returns the number it had.
    pub fn del_inode_with_path(&mut self, path: &RemotePath) -> (res: Option<u64>)
        requires
            old(self).wf(),
        ensures
            final(self).wf(),
            final(self)@ == old(self)@.remove_path(path@),
            res == old(self)@.inode_of(path@),
    {
        let res = self.list.remove_right(path);
        proof {
            self.lemma_after_removal(*old(self));
        }
        res
    }

    /// Binds the number of `old_path` to `new_path` instead; a number that
    /// `new_path` had before is dropped and not used again. Does nothing if
    /// `old_path` is not registered.
    pub fn rename(&mut self, old_path: &RemotePath, new_path: &RemotePath)
        requires
            old(self).wf(),
        ensures
            final(self).wf(),
            final(self)@ == old(self)@.rename(old_path@, new_path@),
    {
        let ino = match self.list.get_left(old_path) {
            Some(i) => *i,
            None => {
                return ;
            },
        };
        self.list.remove_left(&ino);
        proof {
            self.lemma_after_removal(*old(self));
        }
        let ghost mid = *self;
        self.list.insert(ino, new_path.clone());
        proof {
            self.list.lemma_mutual_inverses();
            assert forall|k: u64| #[trigger] self@.paths.contains_key(k) implies 1 <= k
                < self@.next by {
                if k != ino {
                    assert(mid@.paths.contains_key(k));
                }
            }
        }
    }

    /// Whether the counter can still move on.
    pub fn has_room(&self) -> (res: bool)
        ensures
            res == (self@.next < u64::MAX),
    {
        self.next_inode < u64::MAX
    }

    /// Whether this table and `other` hold the same registrations.
    pub fn same_bindings(&self, other: &Inodes) -> (res: bool)
        requires
            self.wf(),
            other.wf(),
        ensures
            res == (self@.paths == other@.paths),
    {
        self.list.same_pairs(&other.list)
    }

    proof fn lemma_after_removal(&self, before: Inodes)
        requires
            before.wf(),
            self.list.wf(),
            self.next_inode == before.next_inode,
            self.list@.submap_of(before.list@),
        ensures
            self.wf(),
    {
        self.list.lemma_mutual_inverses();
        assert forall|k: u64| #[trigger] self@.paths.contains_key(k) implies 1 <= k
            < self@.next by {
            assert(before@.paths.contains_key(k));
        }
    }
}

/// A change of an inode table.
pub enum TableOp {
    /// Register a path.
    Add(PathView),
    /// Drop the registration of a number.
    RemoveInode(u64),
    /// Drop the registration of a path.
    RemovePath(PathView),
    /// Bind the number of the first path to the second.
    Rename(PathView, PathView),
}

/// `n` registrations of `path`, one after the other.
pub open spec fn adds(path: PathView, n: nat) -> Seq<TableOp> {
    Seq::new(n, |i: int| TableOp::Add(path))
}

impl TableOp {
    /// Whether the change leaves the path `root` alone: it neither drops
    /// the root's number nor drops or renames `root`, nor renames onto it.
    pub open spec fn spares(self, root: PathView) -> bool {
        match self {
            TableOp::Add(_) => true,
            TableOp::RemoveInode(ino) => ino != ROOT_INODE,
            TableOp::RemovePath(p) => p != root,
            TableOp::Rename(a, b) => a != root && b != root,
        }
    }
}

impl InodeTable {
    /// Whether the table can take the change: a new path needs a counter
    /// that has not run out.
    pub open spec fn can(self, op: TableOp) -> bool {
        match op {
            TableOp::Add(p) => self.inode_of(p) is Some || self.next < u64::MAX,
            _ => true,
        }
    }

    /// The table after the change.
    pub open spec fn apply(self, op: TableOp) -> InodeTable {
        match op {
            TableOp::Add(p) => self.add(p).0,
            TableOp::RemoveInode(ino) => self.remove_inode(ino),
            TableOp::RemovePath(p) => self.remove_path(p),
            TableOp::Rename(a, b) => self.rename(a, b),
        }
    }

    /// The table after the changes `ops`, made in order.
    pub open spec fn apply_all(self, ops: Seq<TableOp>) -> InodeTable
        decreases ops.len(),
    {
        if ops.len() == 0 {
            self
        } else {
            self.apply_all(ops.drop_last()).apply(ops.last())
        }
    }

    /// Whether the table can take the changes `ops`, made in order.
    pub open spec fn can_all(self, ops: Seq<TableOp>) -> bool
        decreases ops.len(),
    {
        ops.len() == 0 || (self.can_all(ops.drop_last()) && self.apply_all(ops.drop_last()).can(
            ops.last(),
        ))
    }

    /// Law: every change that the table can take leaves it in order.
    pub proof fn lemma_apply_keeps_wf(self, op: TableOp)
        requires
            self.wf(),
            self.can(op),
        ensures
            self.apply(op).wf(),
    {
        match op {
            TableOp::Add(p) => {
                self.lemma_add_idempotent(p);
            },
            TableOp::RemoveInode(ino) => {
                lemma_submap_injective(self.paths, self.paths.remove(ino));
                assert forall|k: u64| #[trigger]
                    self.paths.remove(ino).contains_key(k) implies 1 <= k < self.next by {
                    assert(self.paths.contains_key(k));
                }
            },
            TableOp::RemovePath(p) => {
                let after = spec_remove_right(self.paths, p);
                lemma_submap_injective(self.paths, after);
                assert forall|k: u64| #[trigger] after.contains_key(k) implies 1 <= k
                    < self.next by {
                    assert(self.paths.contains_key(k));
                }
            },
            TableOp::Rename(a, b) => {
                if self.inode_of(a) is Some {
                    let ino = self.inode_of(a)->0;
                    lemma_inverse_pair(self.paths, a);
                    let m0 = self.paths.remove(ino);
                    lemma_submap_injective(self.paths, m0);
                    lemma_insert_binds(m0, ino, b);
                    let after = self.rename(a, b);
                    assert forall|k: u64| #[trigger] after.paths.contains_key(k) implies 1 <= k
                        < after.next by {
                        if k != ino {
                            assert(m0.contains_key(k));
                            assert(self.paths.contains_key(k));
                        }
                    }
                }
            },
        }
    }

    /// Law: the root's number stands for the root's path after any changes
    /// that leave the root's path alone, whatever else they register, drop
    /// or rename; and the table stays in order.
    pub proof fn lemma_root_stays_bound(self, root: PathView, ops: Seq<TableOp>)
        requires
            self.wf(),
            self.path_of(ROOT_INODE) == Some(root),
            self.can_all(ops),
            forall|i: int| 0 <= i < ops.len() ==> (#[trigger] ops[i]).spares(root),
        ensures
            self.apply_all(ops).wf(),
            self.apply_all(ops).path_of(ROOT_INODE) == Some(root),
            self.apply_all(ops).inode_of(root) == Some(ROOT_INODE),
        decreases ops.len(),
    {
        if ops.len() == 0 {
            lemma_inverse_pair(self.paths, root);
        } else {
            let before = self.apply_all(ops.drop_last());
            let op = ops.last();
            assert forall|i: int| 0 <= i < ops.drop_last().len() implies (
            #[trigger] ops.drop_last()[i]).spares(root) by {
                assert(ops.drop_last()[i] == ops[i]);
            }
            self.lemma_root_stays_bound(root, ops.drop_last());
            before.lemma_apply_keeps_wf(op);
            assert(op.spares(root)) by {
                assert(ops[ops.len() - 1].spares(root));
            }
            let after = before.apply(op);
            match op {
                TableOp::Add(p) => {
                    before.lemma_add_idempotent(p);
                },
                TableOp::RemoveInode(ino) => {},
                TableOp::RemovePath(p) => {
                    if before.paths.contains_value(p) {
                        lemma_inverse_pair(before.paths, p);
                    }
                },
                TableOp::Rename(a, b) => {
                    if before.inode_of(a) is Some {
                        let ino = before.inode_of(a)->0;
                        lemma_inverse_pair(before.paths, a);
                        let m0 = before.paths.remove(ino);
                        assert(m0.contains_key(ROOT_INODE) && m0[ROOT_INODE] == root);
                        if m0.contains_value(b) {
                            lemma_submap_injective(before.paths, m0);
                            lemma_inverse_pair(m0, b);
                        }
                    }
                },
            }
            assert(after.paths.contains_key(ROOT_INODE) && after.paths[ROOT_INODE] == root);
            lemma_inverse_pair(after.paths, root);
        }
    }

    /// Law: however often one path is registered, each time it gets the
    /// number that the first time gave it, and the table is the one that
    /// the first time left: the counter has moved once at most.
    pub proof fn lemma_add_many_times(self, path: PathView, n: nat)
        requires
            self.wf(),
            self.inode_of(path) is Some || self.next < u64::MAX,
            n >= 1,
        ensures
            self.can_all(adds(path, n)),
            self.apply_all(adds(path, n)) == self.add(path).0,
            self.apply_all(adds(path, n)).add(path) == self.add(path),
            forall|k: int|
                0 <= k < n ==> (#[trigger] self.apply_all(
                    adds(path, n).take(k),
                )).add(path).1 == self.add(path).1,
        decreases n,
    {
        let ops = adds(path, n);
        self.lemma_add_idempotent(path);
        let first = self.add(path).0;
        if n == 1 {
            assert(ops.drop_last() =~= Seq::<TableOp>::empty());
            assert(ops.last() == TableOp::Add(path));
            assert(self.apply_all(ops.drop_last()) == self);
            assert(self.can_all(ops.drop_last()));
            assert forall|k: int| 0 <= k < n implies (#[trigger] self.apply_all(ops.take(k))).add(
                path,
            ).1 == self.add(path).1 by {
                assert(ops.take(0) =~= Seq::<TableOp>::empty());
            }
        } else {
            let shorter = adds(path, (n - 1) as nat);
            self.lemma_add_many_times(path, (n - 1) as nat);
            assert(ops.drop_last() =~= shorter);
            assert(ops.last() == TableOp::Add(path));
            first.lemma_add_idempotent(path);
            assert forall|k: int| 0 <= k < n implies (#[trigger] self.apply_all(ops.take(k))).add(
                path,
            ).1 == self.add(path).1 by {
                if k < n - 1 {
                    assert(ops.take(k) =~= shorter.take(k));
                } else {
                    assert(ops.take(k) =~= shorter);
                }
            }
        }
    }
}

/// A part of an injective map with a finite domain is injective and has a
/// finite domain.
pub proof fn lemma_submap_injective<A, B>(m: Map<A, B>, part: Map<A, B>)
    requires
        m.is_injective(),
        m.dom().finite(),
        part.submap_of(m),
    ensures
        part.is_injective(),
        part.dom().finite(),
{
    assert forall|x: A, y: A|
        x != y && part.dom().contains(x) && part.dom().contains(y) implies part[x] != part[y] by {
        assert(m.dom().contains(x) && m.dom().contains(y));
    }
    assert(part.dom().subset_of(m.dom()));
    vstd::set_lib::lemma_set_subset_finite(m.dom(), part.dom());
}

/// In an injective map, the inverse leads from a value back to the one key
/// that holds it.
pub proof fn lemma_inverse_pair<A, B>(m: Map<A, B>, v: B)
    requires
        m.is_injective(),
        m.contains_value(v),
    ensures
        m.contains_key(m.invert()[v]),
        m[m.invert()[v]] == v,
        forall|k: A| m.contains_key(k) && #[trigger] m[k] == v ==> k == m.invert()[v],
{
    let w = choose|w: A| m.contains_key(w) && m[w] == v;
    assert(m.contains_pair(w, v));
    assert(m.contains_pair(m.invert()[v], v));
}

} // verus!
