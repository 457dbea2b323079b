//! The table of open files: which handle stands for which open remote file.

use std::collections::HashMap;
use vstd::prelude::*;
use vstd::std_specs::hash::group_hash_axioms;

verus! {

broadcast use group_hash_axioms;

/// The mathematical value of a table of open files of type `F`.
pub struct HandleTable<F> {
    /// The open file that each handle in use stands for.
    pub files: Map<u64, F>,
    /// The handle that the next opened file gets.
    pub next: u64,
}

impl<F> HandleTable<F> {
    /// Every handle in use was handed out before the counter got where it is.
    pub open spec fn wf(self) -> bool {
        forall|fh: u64| #[trigger] self.files.contains_key(fh) ==> fh < self.next
    }

    /// The table after `file` has been registered, and the handle it has. The
    /// counter wraps round at the largest value.
    pub open spec fn add(self, file: F) -> (HandleTable<F>, u64) {
        (
            HandleTable {
                files: self.files.insert(self.next, file),
                next: if self.next == u64::MAX {
                    0
                } else {
                    (self.next + 1) as u64
                },
            },
            self.next,
        )
    }

    /// The file that `fh` stands for, if it is in use.
    pub open spec fn get(self, fh: u64) -> Option<F> {
        if self.files.contains_key(fh) {
            Some(self.files[fh])
        } else {
            None
        }
    }

    /// The table after `fh` has been released.
    pub open spec fn remove(self, fh: u64) -> HandleTable<F> {
        HandleTable { files: self.files.remove(fh), next: self.next }
    }

    /// Law: while the counter has not wrapped round, a new handle differs
    /// from every handle that is in use, so any two files that are open at
    /// one time have different handles; and two files registered one after
    /// the other never share a handle.
    pub proof fn lemma_new_handle_is_fresh(self, file: F, later: F)
        requires
            self.wf(),
        ensures
            !self.files.contains_key(self.add(file).1),
            self.next < u64::MAX ==> self.add(file).0.wf(),
            self.add(file).0.add(later).1 != self.add(file).1,
            self.add(file).0.get(self.add(file).1) == Some(file),
    {
    }

    /// The table after the files `files` have been registered, in order.
    pub open spec fn add_all(self, files: Seq<F>) -> HandleTable<F>
        decreases files.len(),
    {
        if files.len() == 0 {
            self
        } else {
            self.add_all(files.drop_last()).add(files.last()).0
        }
    }

    /// The handle that the file `files[k]` gets when the files `files` are
    /// registered in order.
    pub open spec fn handle_of(self, files: Seq<F>, k: int) -> u64 {
        self.add_all(files.take(k)).add(files[k]).1
    }

    /// Law: when files are registered one after the other, in whatever
    /// order their callers come, and the counter does not wrap round, then
    /// every file gets a handle of its own, which was not in use before,
    /// each handle leads to the file it was given for, and the handles
    /// that were in use stand for what they stood for.
    pub proof fn lemma_handles_are_distinct(self, files: Seq<F>)
        requires
            self.wf(),
            self.next + files.len() <= u64::MAX,
        ensures
            self.add_all(files).wf(),
            self.add_all(files).next == self.next + files.len(),
            forall|k: int| 0 <= k < files.len() ==> #[trigger] self.handle_of(files, k) == self.next + k,
            forall|j: int, k: int|
                0 <= j < k < files.len() ==> self.handle_of(files, j) != self.handle_of(files, k),
            forall|k: int|
                0 <= k < files.len() ==> !self.files.contains_key(#[trigger] self.handle_of(files, k))
                    && self.add_all(files).get(self.handle_of(files, k)) == Some(files[k]),
            forall|fh: u64| #[trigger]
                self.files.contains_key(fh) ==> self.add_all(files).get(fh) == self.get(fh),
        decreases files.len(),
    {
        if files.len() > 0 {
            let init = files.drop_last();
            let n = init.len() as int;
            self.lemma_handles_are_distinct(init);
            let before = self.add_all(init);
            let after = self.add_all(files);
            assert(files.take(n) =~= init);
            assert forall|k: int| 0 <= k < files.len() implies #[trigger] self.handle_of(files, k)
                == self.next + k by {
                if k < n {
                    assert(files.take(k) =~= init.take(k));
                    assert(files[k] == init[k]);
                    assert(self.handle_of(init, k) == self.next + k);
                }
            }
            assert forall|k: int| 0 <= k < files.len() implies !self.files.contains_key(
                #[trigger] self.handle_of(files, k),
            ) && after.get(self.handle_of(files, k)) == Some(files[k]) by {
                if k < n {
                    assert(self.handle_of(init, k) == self.next + k);
                    assert(before.get(self.handle_of(init, k)) == Some(init[k]));
                    assert(files[k] == init[k]);
                }
            }
        }
    }

    /// Law: a handle that has been released stands for nothing, and every
    /// other handle stands for what it stood for.
    pub proof fn lemma_released_is_gone(self, fh: u64)
        ensures
            self.remove(fh).get(fh) is None,
            forall|other: u64| other != fh ==> self.remove(fh).get(other) == self.get(other),
            self.wf() ==> self.remove(fh).wf(),
    {
    }
}

/// The table of open files. Handles are handed out in rising order from a
/// counter.
pub struct Fhandles<F> {
    list: HashMap<u64, F>,
    next_handle: u64,
}

impl<F> View for Fhandles<F> {
    type V = HandleTable<F>;

    closed spec fn view(&self) -> HandleTable<F> {
        HandleTable { files: self.list@, next: self.next_handle }
    }
}

impl<F> Fhandles<F> {
    /// A table without open files, whose counter stands at 0.
    pub fn new() -> (res: Self)
        ensures
            res@.files == Map::<u64, F>::empty(),
            res@.next == 0,
            res@.wf(),
    {
        Fhandles { list: HashMap::new(), next_handle: 0 }
    }

    /// Registers an open file and returns its handle. While the counter has
    /// not wrapped round, the handle is none of those in use.
    pub fn add_file(&mut self, file: F) -> (handle: u64)
        ensures
            final(self)@ == old(self)@.add(file).0,
            handle == old(self)@.add(file).1,
            final(self)@.get(handle) == Some(file),
            old(self)@.wf() ==> !old(self)@.files.contains_key(handle),
            old(self)@.wf() && old(self)@.next < u64::MAX ==> final(self)@.wf(),
    {
        let handle = self.next_handle;
        self.next_handle = handle.wrapping_add(1);
        self.list.insert(handle, file);
        handle
    }

    /// The open file that `fh` stands for, if it is in use.
    pub fn get_file(&self, fh: u64) -> (res: Option<&F>)
        ensures
            match res {
                Some(file) => self@.get(fh) == Some(*file),
                None => self@.get(fh) is None,
            },
    {
        self.list.get(&fh)
    }

    /// Releases `fh`; the open file it stood for is dropped.
    pub fn del_file(&mut self, fh: u64)
        ensures
            final(self)@ == old(self)@.remove(fh),
            final(self)@.get(fh) is None,
            old(self)@.wf() ==> final(self)@.wf(),
    {
        self.list.remove(&fh);
    }
}

} // verus!
