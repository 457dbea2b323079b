//! A bidirectional map: every left key is paired with exactly one right key
//! and every right key with exactly one left key.
//!
//! The map is modelled as a `Map` from the views of the left keys to the views
//! of the right keys. That model is always injective, so the right-to-left
//! direction is its inverse, `self@.invert()`.

use vstd::prelude::*;
use vstd::std_specs::cmp::PartialEqSpec;

verus! {

/// `==` on `T` holds exactly of values with the same view.
pub open spec fn eq_decides_view<T: PartialEq + View>() -> bool {
    &&& T::obeys_eq_spec()
    &&& forall|a: T, b: T| #[trigger] a.eq_spec(&b) <==> (a@ == b@)
}

/// What a type must satisfy to be one side of a [`BiHashMap`].
pub open spec fn lawful_key<T: PartialEq + View>() -> bool {
    eq_decides_view::<T>()
}

/// The map that pairs `keys[i]` with `vals[i]`.
pub open spec fn assoc<A, B>(keys: Seq<A>, vals: Seq<B>) -> Map<A, B> {
    Map::new(|k: A| keys.contains(k), |k: A| vals[keys.index_of(k)])
}

proof fn lemma_assoc_at<A, B>(keys: Seq<A>, vals: Seq<B>, i: int)
    requires
        keys.len() == vals.len(),
        keys.no_duplicates(),
        0 <= i < keys.len(),
    ensures
        assoc(keys, vals).contains_key(keys[i]),
        assoc(keys, vals)[keys[i]] == vals[i],
{
    assert(keys.contains(keys[i]));
    let j = keys.index_of(keys[i]);
    assert(0 <= j < keys.len() && keys[j] == keys[i]);
}

proof fn lemma_assoc_push<A, B>(keys: Seq<A>, vals: Seq<B>, k: A, v: B)
    requires
        keys.len() == vals.len(),
        keys.no_duplicates(),
        !keys.contains(k),
    ensures
        keys.push(k).no_duplicates(),
        assoc(keys.push(k), vals.push(v)) == assoc(keys, vals).insert(k, v),
{
    let keys2 = keys.push(k);
    let vals2 = vals.push(v);
    assert forall|i: int, j: int|
        0 <= i < keys2.len() && 0 <= j < keys2.len() && i != j implies keys2[i] != keys2[j] by {
        if i < keys.len() {
            assert(keys.contains(keys[i]));
        }
        if j < keys.len() {
            assert(keys.contains(keys[j]));
        }
    }
    let m2 = assoc(keys2, vals2);
    let m = assoc(keys, vals).insert(k, v);
    assert forall|x: A| m2.contains_key(x) <==> m.contains_key(x) by {
        if keys2.contains(x) {
            let i = choose|i: int| 0 <= i < keys2.len() && keys2[i] == x;
            if i < keys.len() {
                assert(keys[i] == x);
            }
        }
        if keys.contains(x) {
            let i = choose|i: int| 0 <= i < keys.len() && keys[i] == x;
            assert(keys2[i] == x);
        }
        if x == k {
            assert(keys2[keys.len() as int] == x);
        }
    }
    assert forall|x: A| m2.contains_key(x) implies m2[x] == m[x] by {
        let i = choose|i: int| 0 <= i < keys2.len() && keys2[i] == x;
        lemma_assoc_at(keys2, vals2, i);
        if i < keys.len() {
            assert(keys[i] == x);
            lemma_assoc_at(keys, vals, i);
        }
    }
    assert(m2 =~= m);
}

proof fn lemma_assoc_remove<A, B>(keys: Seq<A>, vals: Seq<B>, i: int)
    requires
        keys.len() == vals.len(),
        keys.no_duplicates(),
        0 <= i < keys.len(),
    ensures
        keys.remove(i).no_duplicates(),
        !keys.remove(i).contains(keys[i]),
        assoc(keys.remove(i), vals.remove(i)) == assoc(keys, vals).remove(keys[i]),
{
    let keys2 = keys.remove(i);
    let vals2 = vals.remove(i);
    assert forall|a: int| 0 <= a < keys2.len() implies keys2[a] == keys[if a < i {
        a
    } else {
        a + 1
    }] by {}
    assert forall|a: int| 0 <= a < vals2.len() implies vals2[a] == vals[if a < i {
        a
    } else {
        a + 1
    }] by {}
    assert(keys2.no_duplicates());
    assert(!keys2.contains(keys[i]));
    let m2 = assoc(keys2, vals2);
    let m = assoc(keys, vals).remove(keys[i]);
    assert forall|x: A| m2.contains_key(x) <==> m.contains_key(x) by {
        if keys2.contains(x) {
            let a = choose|a: int| 0 <= a < keys2.len() && keys2[a] == x;
            let b = if a < i {
                a
            } else {
                a + 1
            };
            assert(keys[b] == x);
        }
        if keys.contains(x) && x != keys[i] {
            let b = choose|b: int| 0 <= b < keys.len() && keys[b] == x;
            let a = if b < i {
                b
            } else {
                b - 1
            };
            assert(keys2[a] == x);
        }
    }
    assert forall|x: A| m2.contains_key(x) implies m2[x] == m[x] by {
        let a = choose|a: int| 0 <= a < keys2.len() && keys2[a] == x;
        let b = if a < i {
            a
        } else {
            a + 1
        };
        lemma_assoc_at(keys2, vals2, a);
        lemma_assoc_at(keys, vals, b);
    }
    assert(m2 =~= m);
}

proof fn lemma_assoc_invert<A, B>(keys: Seq<A>, vals: Seq<B>)
    requires
        keys.len() == vals.len(),
        keys.no_duplicates(),
        vals.no_duplicates(),
    ensures
        assoc(keys, vals).is_injective(),
        assoc(keys, vals).invert() == assoc(vals, keys),
        assoc(keys, vals).dom().finite(),
        assoc(keys, vals).dom().len() == keys.len(),
        forall|v: B| #[trigger] assoc(keys, vals).contains_value(v) <==> vals.contains(v),
{
    let m = assoc(keys, vals);
    let inv = assoc(vals, keys);
    assert forall|x: A, y: A| x != y && m.dom().contains(x) && m.dom().contains(y) implies m[x]
        != m[y] by {
        let i = choose|i: int| 0 <= i < keys.len() && keys[i] == x;
        let j = choose|j: int| 0 <= j < keys.len() && keys[j] == y;
        lemma_assoc_at(keys, vals, i);
        lemma_assoc_at(keys, vals, j);
    }
    assert forall|v: B| m.contains_value(v) <==> inv.contains_key(v) by {
        if m.contains_value(v) {
            let k = choose|k: A| m.dom().contains(k) && m[k] == v;
            let i = choose|i: int| 0 <= i < keys.len() && keys[i] == k;
            lemma_assoc_at(keys, vals, i);
            assert(vals[i] == v);
        }
        if vals.contains(v) {
            let i = choose|i: int| 0 <= i < vals.len() && vals[i] == v;
            lemma_assoc_at(keys, vals, i);
            assert(m.dom().contains(keys[i]) && m[keys[i]] == v);
        }
    }
    assert forall|v: B| inv.contains_key(v) implies m.invert()[v] == inv[v] by {
        let i = choose|i: int| 0 <= i < vals.len() && vals[i] == v;
        lemma_assoc_at(vals, keys, i);
        lemma_assoc_at(keys, vals, i);
        assert(m.contains_pair(keys[i], v));
        let k = choose|k: A| m.contains_pair(k, v);
        assert(m.contains_pair(k, v));
        if k != keys[i] {
            assert(m[k] != m[keys[i]]);
        }
    }
    assert(m.invert() =~= inv);
    assert(m.dom() =~= keys.to_set());
    keys.unique_seq_to_set();
}

/// What [`BiHashMap::insert`] reports of the pairs it has displaced.
#[derive(Debug, PartialEq, Eq)]
pub enum OverwriteResult<L, R> {
    /// Neither key was present.
    NoOverwrite,
    /// One pair has gone, that of the left key; this is the right key it
    /// held. The right key of the insertion was free, or was this one.
    OverwriteRight(R),
    /// One pair has gone, that of the right key; this is the left key it
    /// held. The left key of the insertion was free.
    OverwriteLeft(L),
    /// Two pairs have gone: the left key and the right key were each paired
    /// with another key. First the pair of the left key, then the pair of
    /// the right key.
    OverwriteBoth((L, R), (L, R)),
}

impl<L: View, R: View> View for OverwriteResult<L, R> {
    type V = OverwriteResult<L::V, R::V>;

    open spec fn view(&self) -> OverwriteResult<L::V, R::V> {
        match *self {
            OverwriteResult::NoOverwrite => OverwriteResult::NoOverwrite,
            OverwriteResult::OverwriteRight(r) => OverwriteResult::OverwriteRight(r@),
            OverwriteResult::OverwriteLeft(l) => OverwriteResult::OverwriteLeft(l@),
            OverwriteResult::OverwriteBoth(a, b) => OverwriteResult::OverwriteBoth(
                (a.0@, a.1@),
                (b.0@, b.1@),
            ),
        }
    }
}

/// The map after `(l, r)` has been inserted into the injective map `m`: the
/// pair of `l` and the pair of `r` are gone, and `l` is paired with `r`.
pub open spec fn spec_insert<A, B>(m: Map<A, B>, l: A, r: B) -> Map<A, B> {
    spec_remove_right(m, r).insert(l, r)
}

/// The map after the pair of the right key `r` has been taken out of `m`.
pub open spec fn spec_remove_right<A, B>(m: Map<A, B>, r: B) -> Map<A, B> {
    if m.contains_value(r) {
        m.remove(m.invert()[r])
    } else {
        m
    }
}

/// What inserting `(l, r)` into the injective map `m` displaces. Both pairs
/// are reported where `l` and `r` were each paired with another key. Where
/// one pair goes, it is reported from the side of the key that stays: a pair
/// of `l` by its right key, a pair of `r` by its left key. So a pair `(l, r)`
/// that the map holds already is reported as `OverwriteRight(r)`.
pub open spec fn spec_overwrite<A, B>(m: Map<A, B>, l: A, r: B) -> OverwriteResult<A, B> {
    if m.contains_key(l) {
        if m.contains_value(r) && m[l] != r {
            OverwriteResult::OverwriteBoth((l, m[l]), (m.invert()[r], r))
        } else {
            OverwriteResult::OverwriteRight(m[l])
        }
    } else {
        if m.contains_value(r) {
            OverwriteResult::OverwriteLeft(m.invert()[r])
        } else {
            OverwriteResult::NoOverwrite
        }
    }
}

/// Law: once `(l, r)` has been inserted, `l` leads to `r` and `r` leads back
/// to `l`, and the map is still injective.
pub proof fn lemma_insert_binds<A, B>(m: Map<A, B>, l: A, r: B)
    requires
        m.is_injective(),
    ensures
        spec_insert(m, l, r).is_injective(),
        spec_insert(m, l, r).contains_pair(l, r),
        spec_insert(m, l, r).contains_value(r),
        spec_insert(m, l, r).invert()[r] == l,
{
    let m1 = spec_remove_right(m, r);
    let m2 = spec_insert(m, l, r);
    assert(!m1.contains_value(r)) by {
        if m1.contains_value(r) {
            let k = choose|k: A| m1.contains_key(k) && m1[k] == r;
            assert(m.contains_value(r));
            let k0 = m.invert()[r];
            assert(m.contains_pair(k0, r)) by {
                let w = choose|w: A| m.contains_key(w) && m[w] == r;
                assert(m.contains_pair(w, r));
            }
            assert(m.contains_key(k) && m[k] == r && k != k0);
        }
    }
    assert forall|x: A, y: A| x != y && m2.dom().contains(x) && m2.dom().contains(y) implies m2[x]
        != m2[y] by {
        if x != l && y != l {
            assert(m.dom().contains(x) && m.dom().contains(y));
        } else if x == l {
            assert(m1.contains_key(y));
        } else {
            assert(m1.contains_key(x));
        }
    }
    assert(m2.contains_key(l) && m2[l] == r);
    let k = m2.invert()[r];
    assert(m2.contains_pair(k, r)) by {
        assert(m2.contains_pair(l, r));
    }
}

/// Law: an insertion reports `OverwriteBoth` exactly when both keys were
/// paired before, each with another key, and `NoOverwrite` exactly when
/// neither key was paired. What `OverwriteBoth` holds are the two pairs that
/// have gone.
pub proof fn lemma_overwrite_report<A, B>(m: Map<A, B>, l: A, r: B)
    requires
        m.is_injective(),
    ensures
        spec_overwrite(m, l, r) is OverwriteBoth <==> m.contains_key(l) && m.contains_value(r)
            && m[l] != r && m.invert()[r] != l,
        spec_overwrite(m, l, r) is OverwriteBoth <==> exists|l0: A, r0: B|
            l0 != l && r0 != r && #[trigger] m.contains_pair(l, r0) && #[trigger] m.contains_pair(
                l0,
                r,
            ),
        spec_overwrite(m, l, r) matches OverwriteResult::OverwriteBoth(x, y) ==> m.contains_pair(
            x.0,
            x.1,
        ) && m.contains_pair(y.0, y.1) && x.0 == l && y.1 == r && x.1 != r && y.0 != l,
        spec_overwrite(m, l, r) is NoOverwrite <==> !m.contains_key(l) && !m.contains_value(r),
{
    if m.contains_value(r) {
        let w = choose|w: A| m.contains_key(w) && m[w] == r;
        assert(m.contains_pair(w, r));
        assert(m.contains_pair(m.invert()[r], r));
        if m.contains_key(l) && m[l] != r {
            assert(m.contains_pair(l, m[l]));
        }
    }
    if exists|l0: A, r0: B|
        l0 != l && r0 != r && #[trigger] m.contains_pair(l, r0) && #[trigger] m.contains_pair(l0, r) {
        let (l0, r0) = choose|l0: A, r0: B|
            l0 != l && r0 != r && #[trigger] m.contains_pair(l, r0) && #[trigger] m.contains_pair(
                l0,
                r,
            );
        assert(m.contains_key(l0) && m[l0] == r);
    }
}

/// A bidirectional map between left keys `L` and right keys `R`.
#[derive(Debug)]
pub struct BiHashMap<L, R> {
    pairs: Vec<(L, R)>,
}

impl<L: PartialEq + View, R: PartialEq + View> View for BiHashMap<L, R> {
    type V = Map<L::V, R::V>;

    /// The left-to-right direction of the map.
    closed spec fn view(&self) -> Map<L::V, R::V> {
        assoc(self.lefts(), self.rights())
    }
}

impl<L: PartialEq + View, R: PartialEq + View> BiHashMap<L, R> {
    spec fn lefts(&self) -> Seq<L::V> {
        self.pairs@.map_values(|p: (L, R)| p.0@)
    }

    spec fn rights(&self) -> Seq<R::V> {
        self.pairs@.map_values(|p: (L, R)| p.1@)
    }

    /// The invariant of the map: no left key and no right key occurs twice,
    /// and both key types are lawful.
    pub closed spec fn wf(&self) -> bool {
        &&& lawful_key::<L>()
        &&& lawful_key::<R>()
        &&& self.lefts().no_duplicates()
        &&& self.rights().no_duplicates()
    }

    /// The two directions of a well-formed map are mutual inverses, and they
    /// hold the same number of keys.
    pub proof fn lemma_mutual_inverses(&self)
        requires
            self.wf(),
        ensures
            self@.dom().finite(),
            self@.is_injective(),
            self@.invert().is_injective(),
            self@.invert().invert() == self@,
            self@.invert().dom().len() == self@.dom().len(),
            forall|l: L::V| #[trigger]
                self@.contains_key(l) ==> self@.invert().contains_key(self@[l])
                    && self@.invert()[self@[l]] == l,
            forall|r: R::V| #[trigger]
                self@.invert().contains_key(r) ==> self@.contains_key(self@.invert()[r])
                    && self@[self@.invert()[r]] == r,
    {
        let ls = self.lefts();
        let rs = self.rights();
        lemma_assoc_invert(ls, rs);
        lemma_assoc_invert(rs, ls);
        assert forall|l: L::V| #[trigger] self@.contains_key(l) implies self@.invert().contains_key(
            self@[l],
        ) && self@.invert()[self@[l]] == l by {
            let i = choose|i: int| 0 <= i < ls.len() && ls[i] == l;
            lemma_assoc_at(ls, rs, i);
            lemma_assoc_at(rs, ls, i);
        }
        assert forall|r: R::V| #[trigger]
            self@.invert().contains_key(r) implies self@.contains_key(self@.invert()[r])
            && self@[self@.invert()[r]] == r by {
            let i = choose|i: int| 0 <= i < rs.len() && rs[i] == r;
            lemma_assoc_at(ls, rs, i);
            lemma_assoc_at(rs, ls, i);
        }
    }

    /// An empty map.
    pub fn new() -> (res: Self)
        requires
            lawful_key::<L>(),
            lawful_key::<R>(),
        ensures
            res.wf(),
            res@ == Map::<L::V, R::V>::empty(),
    {
        let res = BiHashMap { pairs: Vec::new() };
        assert(res@ =~= Map::<L::V, R::V>::empty());
        res
    }

    fn position_left(&self, left: &L) -> (res: Option<usize>)
        requires
            self.wf(),
        ensures
            match res {
                Some(i) => i < self.pairs.len() && self.lefts()[i as int] == left@,
                None => !self.lefts().contains(left@),
            },
    {
        let mut i: usize = 0;
        while i < self.pairs.len()
            invariant
                i <= self.pairs.len(),
                eq_decides_view::<L>(),
                forall|j: int| 0 <= j < i ==> self.lefts()[j] != left@,
            decreases self.pairs.len() - i,
        {
            if self.pairs[i].0 == *left {
                return Some(i);
            }
            i += 1;
        }
        None
    }

    fn position_right(&self, right: &R) -> (res: Option<usize>)
        requires
            self.wf(),
        ensures
            match res {
                Some(i) => i < self.pairs.len() && self.rights()[i as int] == right@,
                None => !self.rights().contains(right@),
            },
    {
        let mut i: usize = 0;
        while i < self.pairs.len()
            invariant
                i <= self.pairs.len(),
                eq_decides_view::<R>(),
                forall|j: int| 0 <= j < i ==> self.rights()[j] != right@,
            decreases self.pairs.len() - i,
        {
            if self.pairs[i].1 == *right {
                return Some(i);
            }
            i += 1;
        }
        None
    }

    /// Inserts a pair of which neither key is present yet.
    pub fn insert_no_check(&mut self, left: L, right: R)
        requires
            old(self).wf(),
            !old(self)@.contains_key(left@),
            !old(self)@.contains_value(right@),
        ensures
            final(self).wf(),
            final(self)@ == old(self)@.insert(left@, right@),
    {
        proof {
            let ls = self.lefts();
            let rs = self.rights();
            lemma_assoc_invert(ls, rs);
            if rs.contains(right@) {
                let i = choose|i: int| 0 <= i < rs.len() && rs[i] == right@;
                lemma_assoc_at(ls, rs, i);
                assert(self@.contains_key(ls[i]) && self@[ls[i]] == right@);
            }
            lemma_assoc_push(ls, rs, left@, right@);
            lemma_assoc_push(rs, ls, right@, left@);
        }
        self.pairs.push((left, right));
        proof {
            assert(self.lefts() =~= old(self).lefts().push(left@));
            assert(self.rights() =~= old(self).rights().push(right@));
        }
    }

    /// Takes the pair at `i` out of the map.
    fn take(&mut self, i: usize) -> (res: (L, R))
        requires
            old(self).wf(),
            i < old(self).pairs.len(),
        ensures
            final(self).wf(),
            res.0@ == old(self).lefts()[i as int],
            res.1@ == old(self).rights()[i as int],
            final(self).lefts() == old(self).lefts().remove(i as int),
            final(self).rights() == old(self).rights().remove(i as int),
            final(self)@ == old(self)@.remove(res.0@),
            old(self)@.contains_key(res.0@),
            old(self)@[res.0@] == res.1@,
            old(self)@.invert()[res.1@] == res.0@,
            old(self)@.contains_value(res.1@),
    {
        proof {
            let ls = self.lefts();
            let rs = self.rights();
            lemma_assoc_remove(ls, rs, i as int);
            lemma_assoc_remove(rs, ls, i as int);
            lemma_assoc_at(ls, rs, i as int);
            lemma_assoc_at(rs, ls, i as int);
            lemma_assoc_invert(ls, rs);
        }
        let res = self.pairs.remove(i);
        proof {
            assert(self.lefts() =~= old(self).lefts().remove(i as int));
            assert(self.rights() =~= old(self).rights().remove(i as int));
        }
        res
    }

    /// Pairs `left` with `right`. A pair that held either key before is
    /// removed from the map and reported.
    pub fn insert(&mut self, left: L, right: R) -> (res: OverwriteResult<L, R>)
        requires
            old(self).wf(),
        ensures
            final(self).wf(),
            final(self)@ == spec_insert(old(self)@, left@, right@),
            res@ == spec_overwrite(old(self)@, left@, right@),
    {
        proof {
            self.lemma_mutual_inverses();
            lemma_assoc_invert(self.lefts(), self.rights());
        }
        let at_right = self.position_right(&right);
        let result = match at_right {
            None => {
                match self.position_left(&left) {
                    None => {
                        let r = OverwriteResult::NoOverwrite;
                        assert(r@ == spec_overwrite(old(self)@, left@, right@));
                        r
                    },
                    Some(j) => {
                        let gone = self.take(j);
                        let r = OverwriteResult::OverwriteRight(gone.1);
                        assert(r@ == spec_overwrite(old(self)@, left@, right@));
                        r
                    },
                }
            },
            Some(i) => {
                let by_right = self.take(i);
                match self.position_left(&left) {
                    None => {
                        if by_right.0 == left {
                            let r = OverwriteResult::OverwriteRight(by_right.1);
                            assert(r@ == spec_overwrite(old(self)@, left@, right@));
                            r
                        } else {
                            proof {
                                let ls = old(self).lefts();
                                if ls.contains(left@) {
                                    let b = choose|b: int| 0 <= b < ls.len() && ls[b] == left@;
                                    let a = if b < i {
                                        b
                                    } else {
                                        b - 1
                                    };
                                    assert(ls.remove(i as int)[a] == left@);
                                }
                            }
                            let r = OverwriteResult::OverwriteLeft(by_right.0);
                            assert(r@ == spec_overwrite(old(self)@, left@, right@));
                            r
                        }
                    },
                    Some(j) => {
                        let by_left = self.take(j);
                        let r = OverwriteResult::OverwriteBoth(by_left, by_right);
                        assert(r@ == spec_overwrite(old(self)@, left@, right@));
                        r
                    },
                }
            },
        };
        proof {
            lemma_assoc_invert(self.lefts(), self.rights());
            assert(self@ =~= spec_remove_right(old(self)@, right@).remove(left@));
        }
        self.insert_no_check(left, right);
        proof {
            assert(self@ =~= spec_insert(old(self)@, left@, right@));
        }
        result
    }

    /// Pairs `left` with `right` if neither key is present; otherwise fails
    /// and leaves the map as it was.
    pub fn insert_no_overwrite(&mut self, left: L, right: R) -> (res: Result<(), ()>)
        requires
            old(self).wf(),
        ensures
            final(self).wf(),
            res is Err <==> old(self)@.contains_key(left@) || old(self)@.contains_value(right@),
            res is Err ==> final(self)@ == old(self)@,
            res is Ok ==> final(self)@ == old(self)@.insert(left@, right@),
    {
        if self.contains_left(&left) || self.contains_right(&right) {
            return Err(());
        }
        self.insert_no_check(left, right);
        Ok(())
    }

    /// The right key paired with `left`, if there is one.
    pub fn get_right(&self, left: &L) -> (res: Option<&R>)
        requires
            self.wf(),
        ensures
            res is Some <==> self@.contains_key(left@),
            res matches Some(r) ==> r@ == self@[left@],
    {
        match self.position_left(left) {
            Some(i) => {
                proof {
                    lemma_assoc_at(self.lefts(), self.rights(), i as int);
                }
                Some(&self.pairs[i].1)
            },
            None => None,
        }
    }

    /// The left key paired with `right`, if there is one.
    pub fn get_left(&self, right: &R) -> (res: Option<&L>)
        requires
            self.wf(),
        ensures
            res is Some <==> self@.contains_value(right@),
            res matches Some(l) ==> l@ == self@.invert()[right@] && self@.contains_pair(
                l@,
                right@,
            ),
    {
        proof {
            lemma_assoc_invert(self.lefts(), self.rights());
        }
        match self.position_right(right) {
            Some(i) => {
                proof {
                    lemma_assoc_at(self.rights(), self.lefts(), i as int);
                    lemma_assoc_at(self.lefts(), self.rights(), i as int);
                }
                Some(&self.pairs[i].0)
            },
            None => None,
        }
    }

    /// Whether `left` is paired with anything.
    pub fn contains_left(&self, left: &L) -> (res: bool)
        requires
            self.wf(),
        ensures
            res == self@.contains_key(left@),
    {
        self.position_left(left).is_some()
    }

    /// Whether anything is paired with `right`.
    pub fn contains_right(&self, right: &R) -> (res: bool)
        requires
            self.wf(),
        ensures
            res == self@.contains_value(right@),
    {
        proof {
            lemma_assoc_invert(self.lefts(), self.rights());
        }
        self.position_right(right).is_some()
    }

    /// Removes the pair of `left` and returns the right key it held.
    pub fn remove_left(&mut self, left: &L) -> (res: Option<R>)
        requires
            old(self).wf(),
        ensures
            final(self).wf(),
            final(self)@ == old(self)@.remove(left@),
            res is Some <==> old(self)@.contains_key(left@),
            res matches Some(r) ==> r@ == old(self)@[left@],
    {
        match self.position_left(left) {
            Some(i) => {
                let gone = self.take(i);
                Some(gone.1)
            },
            None => {
                assert(self@ =~= old(self)@.remove(left@));
                None
            },
        }
    }

    /// Removes the pair of `right` and returns the left key it held.
    pub fn remove_right(&mut self, right: &R) -> (res: Option<L>)
        requires
            old(self).wf(),
        ensures
            final(self).wf(),
            final(self)@ == spec_remove_right(old(self)@, right@),
            res is Some <==> old(self)@.contains_value(right@),
            res matches Some(l) ==> l@ == old(self)@.invert()[right@] && old(self)@.contains_pair(
                l@,
                right@,
            ),
    {
        proof {
            lemma_assoc_invert(self.lefts(), self.rights());
        }
        match self.position_right(right) {
            Some(i) => {
                let gone = self.take(i);
                Some(gone.0)
            },
            None => None,
        }
    }

    /// The number of pairs in the map.
    pub fn len(&self) -> (res: usize)
        requires
            self.wf(),
        ensures
            res == self@.dom().len(),
            res == self@.invert().dom().len(),
    {
        proof {
            lemma_assoc_invert(self.lefts(), self.rights());
            lemma_assoc_invert(self.rights(), self.lefts());
        }
        self.pairs.len()
    }

    /// Whether this map and `other` hold the same pairs.
    pub fn same_pairs(&self, other: &BiHashMap<L, R>) -> (res: bool)
        requires
            self.wf(),
            other.wf(),
        ensures
            res == (self@ == other@),
    {
        proof {
            lemma_assoc_invert(self.lefts(), self.rights());
            lemma_assoc_invert(other.lefts(), other.rights());
        }
        if self.pairs.len() != other.pairs.len() {
            return false;
        }
        let mut i: usize = 0;
        while i < self.pairs.len()
            invariant
                i <= self.pairs.len(),
                self.wf(),
                other.wf(),
                forall|j: int|
                    0 <= j < i ==> other@.contains_key(#[trigger] self.lefts()[j]) && other@[self.lefts()[j]]
                        == self.rights()[j],
            decreases self.pairs.len() - i,
        {
            proof {
                lemma_assoc_at(self.lefts(), self.rights(), i as int);
            }
            match other.get_right(&self.pairs[i].0) {
                None => {
                    return false;
                },
                Some(r) => {
                    if !(*r == self.pairs[i].1) {
                        return false;
                    }
                },
            }
            i += 1;
        }
        proof {
            let ls = self.lefts();
            assert forall|k: L::V| self@.contains_key(k) implies other@.contains_key(k) && other@[k]
                == self@[k] by {
                let j = choose|j: int| 0 <= j < ls.len() && ls[j] == k;
                lemma_assoc_at(ls, self.rights(), j);
            }
            assert(self@.dom().subset_of(other@.dom()));
            vstd::set_lib::lemma_subset_equality(self@.dom(), other@.dom());
            assert(self@ =~= other@);
        }
        true
    }
}

} // verus!
