//! Paths on the remote side.
//!
//! A remote path is a sequence of components, each an opaque byte string, and
//! a flag that says whether the path starts at the root. Two paths are the
//! same when they have the same flag and the same components, so `a/b`, `a/b/`
//! and `a//./b` name one path.

use vstd::prelude::*;
use vstd::std_specs::cmp::PartialEqSpecImpl;

verus! {

/// The byte that separates the components of a path.
pub const SEPARATOR: u8 = 0x2f;

/// The byte of which the component `.` consists.
pub const DOT: u8 = 0x2e;

/// The mathematical value of a [`RemotePath`].
pub struct PathView {
    /// Whether the path starts at the root.
    pub absolute: bool,
    /// The components, outermost first.
    pub parts: Seq<Seq<u8>>,
}

/// The stretches of `s` between separators, empty ones included; there is
/// always at least one.
pub open spec fn segments(s: Seq<u8>) -> Seq<Seq<u8>>
    decreases s.len(),
{
    if s.len() == 0 {
        seq![Seq::<u8>::empty()]
    } else {
        let before = segments(s.drop_last());
        if s.last() == SEPARATOR {
            before.push(Seq::<u8>::empty())
        } else {
            before.drop_last().push(before.last().push(s.last()))
        }
    }
}

/// Whether a segment is a component: an empty segment is none, and `.` is one
/// only at the very start of a path.
pub open spec fn is_component(segment: Seq<u8>, first: bool) -> bool {
    segment.len() > 0 && (first || segment != seq![DOT])
}

/// The segments of `segs` that are components, in order.
pub open spec fn components(segs: Seq<Seq<u8>>) -> Seq<Seq<u8>>
    decreases segs.len(),
{
    if segs.len() == 0 {
        Seq::<Seq<u8>>::empty()
    } else {
        let before = components(segs.drop_last());
        if is_component(segs.last(), segs.len() == 1) {
            before.push(segs.last())
        } else {
            before
        }
    }
}

/// The path that the bytes `s` spell.
pub open spec fn parse_path(s: Seq<u8>) -> PathView {
    PathView { absolute: s.len() > 0 && s[0] == SEPARATOR, parts: components(segments(s)) }
}

/// The components `parts` with one separator between each two.
pub open spec fn join_parts(parts: Seq<Seq<u8>>) -> Seq<u8>
    decreases parts.len(),
{
    if parts.len() == 0 {
        Seq::<u8>::empty()
    } else if parts.len() == 1 {
        parts[0]
    } else {
        join_parts(parts.drop_last()) + seq![SEPARATOR] + parts.last()
    }
}

impl PathView {
    /// This path with `name` appended as one more component.
    pub open spec fn child(self, name: Seq<u8>) -> PathView {
        PathView { absolute: self.absolute, parts: self.parts.push(name) }
    }

    /// The path that `other` names when it is read from this path: `other`
    /// itself if it is absolute, and else this path followed by the
    /// components of `other`. A `.` at the start of `other` is dropped
    /// unless this path is relative and has no components.
    pub open spec fn join(self, other: PathView) -> PathView {
        if other.absolute {
            other
        } else if other.parts.len() > 0 && other.parts[0] == seq![DOT] && (self.absolute
            || self.parts.len() > 0) {
            PathView { absolute: self.absolute, parts: self.parts + other.parts.drop_first() }
        } else {
            PathView { absolute: self.absolute, parts: self.parts + other.parts }
        }
    }

    /// Whether this is the relative path `.` or the relative path `..`.
    pub open spec fn is_dot(self) -> bool {
        !self.absolute && (self.parts == seq![seq![DOT]] || self.parts == seq![seq![DOT, DOT]])
    }

    /// The last component, unless there is none or it is `.` or `..`.
    pub open spec fn file_name(self) -> Option<Seq<u8>> {
        if self.parts.len() > 0 && self.parts.last() != seq![DOT] && self.parts.last() != seq![
            DOT,
            DOT,
        ] {
            Some(self.parts.last())
        } else {
            None
        }
    }

    /// The bytes that spell this path: a separator in front if it is
    /// absolute, then the components with one separator between each two.
    pub open spec fn bytes(self) -> Seq<u8> {
        if self.absolute {
            seq![SEPARATOR] + join_parts(self.parts)
        } else {
            join_parts(self.parts)
        }
    }
}

/// Whether `part` can stand in a path as it is spelled: it is not empty, it
/// holds no separator, and it is not `.`, unless it is the first component
/// of a relative path.
pub open spec fn clean_part(part: Seq<u8>, first_of_relative: bool) -> bool {
    part.len() > 0 && !part.contains(SEPARATOR) && (first_of_relative || part != seq![DOT])
}

impl PathView {
    /// Whether every component can stand in the path as it is spelled.
    pub open spec fn clean(self) -> bool {
        forall|i: int|
            0 <= i < self.parts.len() ==> clean_part(
                #[trigger] self.parts[i],
                !self.absolute && i == 0,
            )
    }
}

proof fn lemma_segments_plain(s: Seq<u8>)
    requires
        !s.contains(SEPARATOR),
    ensures
        segments(s) == seq![s],
    decreases s.len(),
{
    if s.len() == 0 {
        assert(s =~= Seq::<u8>::empty());
    } else {
        let init = s.drop_last();
        assert(s[s.len() - 1] != SEPARATOR);
        assert forall|i: int| 0 <= i < init.len() implies init[i] != SEPARATOR by {
            assert(init[i] == s[i]);
        }
        lemma_segments_plain(init);
        assert(init.push(s.last()) =~= s);
        assert(segments(init).drop_last() =~= Seq::<Seq<u8>>::empty());
        assert(segments(s) =~= seq![s]);
    }
}

proof fn lemma_segments_concat(x: Seq<u8>, y: Seq<u8>)
    ensures
        segments(x + seq![SEPARATOR] + y) == segments(x) + segments(y),
    decreases y.len(),
{
    let whole = x + seq![SEPARATOR] + y;
    lemma_segments_nonempty(y);
    if y.len() == 0 {
        assert(whole.drop_last() =~= x);
        assert(segments(y) =~= seq![Seq::<u8>::empty()]);
        assert(segments(whole) =~= segments(x) + segments(y));
    } else {
        let init = y.drop_last();
        lemma_segments_concat(x, init);
        lemma_segments_nonempty(init);
        assert(whole.drop_last() =~= x + seq![SEPARATOR] + init);
        assert(whole.last() == y.last());
        let a = segments(x);
        let b = segments(init);
        if y.last() == SEPARATOR {
            assert((a + b).push(Seq::<u8>::empty()) =~= a + b.push(Seq::<u8>::empty()));
        } else {
            assert((a + b).last() == b.last());
            assert((a + b).drop_last() =~= a + b.drop_last());
            assert((a + b).drop_last().push(b.last().push(y.last())) =~= a + b.drop_last().push(
                b.last().push(y.last()),
            ));
        }
    }
}

proof fn lemma_segments_join(parts: Seq<Seq<u8>>)
    requires
        parts.len() > 0,
        forall|i: int| 0 <= i < parts.len() ==> !(#[trigger] parts[i]).contains(SEPARATOR),
    ensures
        segments(join_parts(parts)) == parts,
    decreases parts.len(),
{
    if parts.len() == 1 {
        lemma_segments_plain(parts[0]);
        assert(seq![parts[0]] =~= parts);
    } else {
        let init = parts.drop_last();
        assert forall|i: int| 0 <= i < init.len() implies !(#[trigger] init[i]).contains(
            SEPARATOR,
        ) by {
            assert(init[i] == parts[i]);
        }
        lemma_segments_join(init);
        lemma_segments_concat(join_parts(init), parts.last());
        lemma_segments_plain(parts.last());
        assert(init + seq![parts.last()] =~= parts);
    }
}

proof fn lemma_components_kept(segs: Seq<Seq<u8>>)
    requires
        segs.len() > 0,
        forall|i: int| 1 <= i < segs.len() ==> is_component(#[trigger] segs[i], false),
    ensures
        components(segs) == if is_component(segs[0], true) {
            segs
        } else {
            segs.drop_first()
        },
    decreases segs.len(),
{
    if segs.len() == 1 {
        assert(components(segs.drop_last()) =~= Seq::<Seq<u8>>::empty());
        if is_component(segs[0], true) {
            assert(Seq::<Seq<u8>>::empty().push(segs.last()) =~= segs);
        } else {
            assert(segs.drop_first() =~= Seq::<Seq<u8>>::empty());
        }
    } else {
        let init = segs.drop_last();
        assert forall|i: int| 1 <= i < init.len() implies is_component(
            #[trigger] init[i],
            false,
        ) by {
            assert(init[i] == segs[i]);
        }
        lemma_components_kept(init);
        assert(is_component(segs[segs.len() - 1], false));
        assert(init[0] == segs[0]);
        if is_component(segs[0], true) {
            assert(init.push(segs.last()) =~= segs);
        } else {
            assert(init.drop_first().push(segs.last()) =~= segs.drop_first());
        }
    }
}

proof fn lemma_join_starts(parts: Seq<Seq<u8>>)
    requires
        parts.len() > 0,
        parts[0].len() > 0,
    ensures
        join_parts(parts).len() > 0,
        join_parts(parts)[0] == parts[0][0],
    decreases parts.len(),
{
    if parts.len() > 1 {
        let init = parts.drop_last();
        assert(init[0] == parts[0]);
        lemma_join_starts(init);
    }
}

/// Law: a path whose components can all stand in it as they are spelled is
/// read back from the bytes that spell it.
pub proof fn lemma_spelled_path_reads_back(p: PathView)
    requires
        p.clean(),
    ensures
        parse_path(p.bytes()) == p,
{
    let parts = p.parts;
    let empty = Seq::<u8>::empty();
    if parts.len() == 0 {
        if p.absolute {
            let s = seq![SEPARATOR];
            assert(p.bytes() =~= s);
            assert(empty + seq![SEPARATOR] + empty =~= s);
            lemma_segments_concat(empty, empty);
            let one = seq![empty];
            assert(segments(empty) =~= one);
            let segs = segments(s);
            assert(segs =~= one + one);
            assert(segs.drop_last() =~= one);
            assert(one.drop_last() =~= Seq::<Seq<u8>>::empty());
            assert(components(one.drop_last()) =~= Seq::<Seq<u8>>::empty());
            assert(components(one) =~= Seq::<Seq<u8>>::empty());
            assert(components(segs) =~= Seq::<Seq<u8>>::empty());
            assert(parse_path(s).parts =~= parts);
        } else {
            assert(p.bytes() =~= empty);
            let segs = segments(empty);
            assert(segs =~= seq![empty]);
            lemma_components_kept(segs);
            assert(segs.drop_first() =~= Seq::<Seq<u8>>::empty());
            assert(parse_path(empty).parts =~= parts);
        }
    } else {
        assert forall|i: int| 0 <= i < parts.len() implies !(#[trigger] parts[i]).contains(
            SEPARATOR,
        ) by {
            assert(clean_part(parts[i], !p.absolute && i == 0));
        }
        assert(clean_part(parts[0], !p.absolute));
        lemma_segments_join(parts);
        lemma_join_starts(parts);
        let joined = join_parts(parts);
        if p.absolute {
            let s = seq![SEPARATOR] + joined;
            assert(p.bytes() == s);
            assert(empty + seq![SEPARATOR] + joined =~= s);
            lemma_segments_concat(empty, joined);
            let segs = segments(s);
            assert(segs =~= seq![empty] + parts);
            assert forall|i: int| 1 <= i < segs.len() implies is_component(
                #[trigger] segs[i],
                false,
            ) by {
                assert(segs[i] == parts[i - 1]);
                assert(clean_part(parts[i - 1], false));
            }
            lemma_components_kept(segs);
            assert(segs.drop_first() =~= parts);
            assert(s[0] == SEPARATOR);
        } else {
            assert(p.bytes() == joined);
            assert forall|i: int| 1 <= i < parts.len() implies is_component(
                #[trigger] parts[i],
                false,
            ) by {
                assert(clean_part(parts[i], false));
            }
            lemma_components_kept(parts);
            assert(parts[0].contains(parts[0][0]));
            assert(joined[0] != SEPARATOR);
        }
    }
}

proof fn lemma_segments_hold_no_separator(s: Seq<u8>)
    ensures
        forall|i: int| 0 <= i < segments(s).len() ==> !(#[trigger] segments(s)[i]).contains(SEPARATOR),
    decreases s.len(),
{
    if s.len() > 0 {
        let before = segments(s.drop_last());
        lemma_segments_hold_no_separator(s.drop_last());
        lemma_segments_nonempty(s.drop_last());
        if s.last() != SEPARATOR {
            let grown = before.last().push(s.last());
            assert forall|k: int| 0 <= k < grown.len() implies grown[k] != SEPARATOR by {
                if k < before.last().len() {
                    assert(before.last().contains(before.last()[k]));
                }
            }
        }
    }
}

proof fn lemma_first_segment(s: Seq<u8>)
    requires
        s.len() > 0,
        s[0] == SEPARATOR,
    ensures
        segments(s).len() >= 2,
        segments(s)[0].len() == 0,
    decreases s.len(),
{
    let init = s.drop_last();
    let before = segments(init);
    let empty = Seq::<u8>::empty();
    if init.len() == 0 {
        assert(s.last() == SEPARATOR);
        assert(before =~= seq![empty]);
        assert(segments(s) =~= seq![empty, empty]);
    } else {
        assert(init[0] == s[0]);
        lemma_first_segment(init);
        if s.last() == SEPARATOR {
            assert(segments(s) == before.push(empty));
            assert(before.push(empty)[0] == before[0]);
        } else {
            let grown = before.drop_last().push(before.last().push(s.last()));
            assert(segments(s) == grown);
            assert(grown[0] == before[0]);
        }
    }
}

proof fn lemma_components_are_kept_segments(segs: Seq<Seq<u8>>)
    ensures
        forall|j: int| 0 <= j < components(segs).len() ==> (#[trigger] components(segs)[j]).len() > 0,
        (forall|i: int| 0 <= i < segs.len() ==> !(#[trigger] segs[i]).contains(SEPARATOR)) ==> (forall|
            j: int,
        |
            0 <= j < components(segs).len() ==> !(#[trigger] components(segs)[j]).contains(
                SEPARATOR,
            )),
        forall|j: int|
            0 <= j < components(segs).len() && #[trigger] components(segs)[j] == seq![DOT] ==> j == 0
                && segs.len() > 0 && segs[0] == seq![DOT],
    decreases segs.len(),
{
    if segs.len() > 0 {
        let init = segs.drop_last();
        let last = segs.last();
        let ki = components(init);
        let kept = components(segs);
        lemma_components_are_kept_segments(init);
        let pushed = is_component(last, segs.len() == 1);
        assert(kept == if pushed {
            ki.push(last)
        } else {
            ki
        });
        assert forall|j: int| 0 <= j < kept.len() implies (#[trigger] kept[j]).len() > 0 by {
            if j < ki.len() {
                assert(kept[j] == ki[j]);
            }
        }
        if forall|i: int| 0 <= i < segs.len() ==> !(#[trigger] segs[i]).contains(SEPARATOR) {
            assert forall|i: int| 0 <= i < init.len() implies !(#[trigger] init[i]).contains(
                SEPARATOR,
            ) by {
                assert(init[i] == segs[i]);
            }
            assert(!segs[segs.len() - 1].contains(SEPARATOR));
            assert forall|j: int| 0 <= j < kept.len() implies !(#[trigger] kept[j]).contains(
                SEPARATOR,
            ) by {
                if j < ki.len() {
                    assert(kept[j] == ki[j]);
                }
            }
        }
        assert forall|j: int| 0 <= j < kept.len() && #[trigger] kept[j] == seq![DOT] implies j == 0
            && segs[0] == seq![DOT] by {
            if j < ki.len() {
                assert(kept[j] == ki[j]);
                assert(init[0] == segs[0]);
            } else {
                assert(kept[j] == last);
                if segs.len() == 1 {
                    assert(init =~= Seq::<Seq<u8>>::empty());
                    assert(ki =~= Seq::<Seq<u8>>::empty());
                }
            }
        }
    }
}

/// Law: every component of a path that bytes spell can stand in the path
/// as it is spelled.
pub proof fn lemma_parsed_path_is_clean(s: Seq<u8>)
    ensures
        parse_path(s).clean(),
{
    let p = parse_path(s);
    let segs = segments(s);
    lemma_segments_hold_no_separator(s);
    lemma_components_are_kept_segments(segs);
    assert forall|i: int| 0 <= i < p.parts.len() implies clean_part(
        #[trigger] p.parts[i],
        !p.absolute && i == 0,
    ) by {
        if p.parts[i] == seq![DOT] {
            assert(seq![DOT].len() == 1);
            if p.absolute {
                lemma_first_segment(s);
            }
        }
    }
}

/// Law: the path of an entry of a directory is read back from the bytes
/// that spell it, if the path of the directory is and the name of the entry
/// can stand in a path; so an entry has one path, whether it is reached by
/// its name or found in a listing.
pub proof fn lemma_child_reads_back(dir: PathView, name: Seq<u8>)
    requires
        dir.clean(),
        clean_part(name, false),
    ensures
        dir.child(name).clean(),
        parse_path(dir.child(name).bytes()) == dir.child(name),
{
    let c = dir.child(name);
    assert forall|i: int| 0 <= i < c.parts.len() implies clean_part(
        #[trigger] c.parts[i],
        !c.absolute && i == 0,
    ) by {
        if i < dir.parts.len() {
            assert(c.parts[i] == dir.parts[i]);
        }
    }
    lemma_spelled_path_reads_back(c);
}

/// A path on the remote side.
#[derive(Debug)]
pub struct RemotePath {
    absolute: bool,
    parts: Vec<Vec<u8>>,
}

impl View for RemotePath {
    type V = PathView;

    closed spec fn view(&self) -> PathView {
        PathView { absolute: self.absolute, parts: self.parts@.map_values(|p: Vec<u8>| p@) }
    }
}

fn same_bytes(a: &Vec<u8>, b: &Vec<u8>) -> (res: bool)
    ensures
        res == (a@ == b@),
{
    if a.len() != b.len() {
        return false;
    }
    let mut i: usize = 0;
    while i < a.len()
        invariant
            i <= a.len(),
            a.len() == b.len(),
            forall|j: int| 0 <= j < i ==> a@[j] == b@[j],
        decreases a.len() - i,
    {
        if a[i] != b[i] {
            return false;
        }
        i += 1;
    }
    assert(a@ =~= b@);
    true
}

/// A copy of the bytes `a`.
pub fn copy_bytes(a: &[u8]) -> (res: Vec<u8>)
    ensures
        res@ == a@,
{
    let mut out: Vec<u8> = Vec::new();
    let mut i: usize = 0;
    while i < a.len()
        invariant
            i <= a.len(),
            out@ == a@.take(i as int),
        decreases a.len() - i,
    {
        out.push(a[i]);
        assert(a@.take(i as int + 1) =~= a@.take(i as int).push(a@[i as int]));
        i += 1;
    }
    assert(a@.take(a.len() as int) =~= a@);
    out
}

proof fn lemma_segments_step(s: Seq<u8>, i: int)
    requires
        0 <= i < s.len(),
    ensures
        segments(s.take(i)).len() >= 1,
        s[i] == SEPARATOR ==> segments(s.take(i + 1)) == segments(s.take(i)).push(
            Seq::<u8>::empty(),
        ),
        s[i] != SEPARATOR ==> segments(s.take(i + 1)) == segments(s.take(i)).drop_last().push(
            segments(s.take(i)).last().push(s[i]),
        ),
{
    lemma_segments_nonempty(s.take(i));
    assert(s.take(i + 1).drop_last() =~= s.take(i));
}

proof fn lemma_segments_nonempty(s: Seq<u8>)
    ensures
        segments(s).len() >= 1,
    decreases s.len(),
{
    if s.len() > 0 {
        lemma_segments_nonempty(s.drop_last());
    }
}

fn is_component_exec(segment: &Vec<u8>, first: bool) -> (res: bool)
    ensures
        res == is_component(segment@, first),
{
    if segment.len() == 0 {
        return false;
    }
    if first {
        return true;
    }
    let only_dot = segment.len() == 1 && segment[0] == DOT;
    proof {
        if only_dot {
            assert(segment@ =~= seq![DOT]);
        } else {
            assert(seq![DOT].len() == 1 && seq![DOT][0] == DOT);
        }
    }
    !only_dot
}

fn is_dot_part(part: &Vec<u8>) -> (res: bool)
    ensures
        res == (part@ == seq![DOT]),
{
    let res = part.len() == 1 && part[0] == DOT;
    proof {
        if res {
            assert(part@ =~= seq![DOT]);
        } else {
            assert(seq![DOT].len() == 1 && seq![DOT][0] == DOT);
        }
    }
    res
}

impl RemotePath {
    /// The path that `bytes` spell. Separators split the bytes into
    /// components; empty components are dropped, and so is every `.` but one
    /// that starts a relative path.
    pub fn from_bytes(bytes: &[u8]) -> (res: RemotePath)
        ensures
            res@ == parse_path(bytes@),
    {
        let absolute = bytes.len() > 0 && bytes[0] == SEPARATOR;
        let mut parts: Vec<Vec<u8>> = Vec::new();
        let mut cur: Vec<u8> = Vec::new();
        let mut first = true;
        let mut i: usize = 0;
        assert(bytes@.take(0) =~= Seq::<u8>::empty());
        while i < bytes.len()
            invariant
                i <= bytes.len(),
                segments(bytes@.take(i as int)).len() >= 1,
                parts@.map_values(|p: Vec<u8>| p@) == components(
                    segments(bytes@.take(i as int)).drop_last(),
                ),
                cur@ == segments(bytes@.take(i as int)).last(),
                first == (segments(bytes@.take(i as int)).len() == 1),
            decreases bytes.len() - i,
        {
            let ghost segs = segments(bytes@.take(i as int));
            proof {
                lemma_segments_step(bytes@, i as int);
            }
            if bytes[i] == SEPARATOR {
                if is_component_exec(&cur, first) {
                    parts.push(cur);
                    assert(parts@.map_values(|p: Vec<u8>| p@) =~= components(segs.drop_last()).push(
                        segs.last(),
                    ));
                }
                cur = Vec::new();
                first = false;
                assert(segs.push(Seq::<u8>::empty()).drop_last() =~= segs);
            } else {
                cur.push(bytes[i]);
                assert(segs.drop_last().push(segs.last().push(bytes@[i as int])).drop_last()
                    =~= segs.drop_last());
            }
            i += 1;
        }
        assert(bytes@.take(bytes.len() as int) =~= bytes@);
        if is_component_exec(&cur, first) {
            let ghost before = parts@.map_values(|p: Vec<u8>| p@);
            parts.push(cur);
            assert(parts@.map_values(|p: Vec<u8>| p@) =~= before.push(cur@));
        }
        RemotePath { absolute, parts }
    }

    /// This path with `name` appended as a single component. The bytes of
    /// `name` are taken as they are.
    pub fn child(&self, name: &[u8]) -> (res: RemotePath)
        ensures
            res@ == self@.child(name@),
    {
        let mut res = self.clone();
        let part = copy_bytes(name);
        res.parts.push(part);
        assert(res@.parts =~= self@.parts.push(name@));
        res
    }

    /// The path that `other` names when it is read from this path.
    pub fn join(&self, other: &RemotePath) -> (res: RemotePath)
        ensures
            res@ == self@.join(other@),
    {
        if other.absolute {
            return other.clone();
        }
        let mut res = self.clone();
        let ghost base = self@.parts;
        assert(self@.parts.len() == self.parts.len() && other@.parts.len() == other.parts.len());
        let skip: usize = if other.parts.len() > 0 && (self.absolute || self.parts.len() > 0)
            && is_dot_part(&other.parts[0]) {
            1
        } else {
            0
        };
        let mut i: usize = skip;
        assert(other@.parts.subrange(skip as int, skip as int) =~= Seq::<Seq<u8>>::empty());
        assert(base + Seq::<Seq<u8>>::empty() =~= base);
        while i < other.parts.len()
            invariant
                skip <= i <= other.parts.len(),
                res@.absolute == self@.absolute,
                base == self@.parts,
                res@.parts == base + other@.parts.subrange(skip as int, i as int),
            decreases other.parts.len() - i,
        {
            let part = copy_bytes(other.parts[i].as_slice());
            let ghost before = res@.parts;
            res.parts.push(part);
            assert(res@.parts =~= before.push(other@.parts[i as int]));
            assert(other@.parts.subrange(skip as int, i as int + 1) =~= other@.parts.subrange(
                skip as int,
                i as int,
            ).push(other@.parts[i as int]));
            assert(res@.parts =~= base + other@.parts.subrange(skip as int, i as int + 1));
            i += 1;
        }
        proof {
            let n = other.parts.len() as int;
            if skip == 1 {
                assert(other@.parts.subrange(1, n) =~= other@.parts.drop_first());
            } else {
                assert(other@.parts.subrange(0, n) =~= other@.parts);
            }
        }
        res
    }

    /// Whether this is the relative path `.` or the relative path `..`.
    pub fn is_dot(&self) -> (res: bool)
        ensures
            res == self@.is_dot(),
    {
        if self.absolute || self.parts.len() != 1 {
            proof {
                assert(self@.parts.len() == self.parts.len());
                assert(seq![seq![DOT]].len() == 1 && seq![seq![DOT, DOT]].len() == 1);
            }
            return false;
        }
        let part = &self.parts[0];
        let one = part.len() == 1 && part[0] == DOT;
        let two = part.len() == 2 && part[0] == DOT && part[1] == DOT;
        proof {
            let d1 = seq![DOT];
            let d2 = seq![DOT, DOT];
            assert(d1.len() == 1 && d1[0] == DOT);
            assert(d2.len() == 2 && d2[0] == DOT && d2[1] == DOT);
            assert(self@.parts[0] == part@);
            if one {
                assert(part@ =~= d1);
                assert(self@.parts =~= seq![d1]);
            }
            if two {
                assert(part@ =~= d2);
                assert(self@.parts =~= seq![d2]);
            }
            if self@.parts == seq![d1] {
                assert(seq![d1][0] == d1);
            }
            if self@.parts == seq![d2] {
                assert(seq![d2][0] == d2);
            }
        }
        one || two
    }

    /// The last component, unless there is none or it is `.` or `..`.
    pub fn file_name(&self) -> (res: Option<Vec<u8>>)
        ensures
            res is Some <==> self@.file_name() is Some,
            res matches Some(name) ==> Some(name@) == self@.file_name(),
    {
        if self.parts.len() == 0 {
            assert(self@.parts.len() == 0);
            return None;
        }
        let part = &self.parts[self.parts.len() - 1];
        let one = part.len() == 1 && part[0] == DOT;
        let two = part.len() == 2 && part[0] == DOT && part[1] == DOT;
        proof {
            let d1 = seq![DOT];
            let d2 = seq![DOT, DOT];
            assert(d1.len() == 1 && d1[0] == DOT);
            assert(d2.len() == 2 && d2[0] == DOT && d2[1] == DOT);
            assert(self@.parts.last() == part@);
            if one {
                assert(part@ =~= d1);
            }
            if two {
                assert(part@ =~= d2);
            }
        }
        if one || two {
            None
        } else {
            Some(copy_bytes(part.as_slice()))
        }
    }

    /// Whether the path starts at the root.
    pub fn is_absolute(&self) -> (res: bool)
        ensures
            res == self@.absolute,
    {
        self.absolute
    }

    /// The bytes that spell the path.
    pub fn to_bytes(&self) -> (res: Vec<u8>)
        ensures
            res@ == self@.bytes(),
    {
        let mut out: Vec<u8> = Vec::new();
        if self.absolute {
            out.push(SEPARATOR);
        }
        let ghost head = out@;
        let mut i: usize = 0;
        assert(self@.parts.take(0) =~= Seq::<Seq<u8>>::empty());
        while i < self.parts.len()
            invariant
                i <= self.parts.len(),
                out@ == head + join_parts(self@.parts.take(i as int)),
            decreases self.parts.len() - i,
        {
            let ghost done = self@.parts.take(i as int);
            let ghost next = self@.parts.take(i as int + 1);
            proof {
                assert(next.drop_last() =~= done);
                assert(next.last() == self@.parts[i as int]);
                assert(next[0] == self@.parts[0]);
            }
            if i > 0 {
                out.push(SEPARATOR);
            }
            let part = &self.parts[i];
            let mut j: usize = 0;
            let ghost start = out@;
            while j < part.len()
                invariant
                    j <= part.len(),
                    out@ == start + part@.take(j as int),
                decreases part.len() - j,
            {
                out.push(part[j]);
                assert(part@.take(j as int + 1) =~= part@.take(j as int).push(part@[j as int]));
                assert(out@ =~= start + part@.take(j as int + 1));
                j += 1;
            }
            assert(part@.take(part.len() as int) =~= part@);
            assert(out@ =~= head + join_parts(next)) by {
                if i == 0 {
                    assert(join_parts(done) =~= Seq::<u8>::empty());
                    assert(start =~= head);
                    assert(next.len() == 1);
                } else {
                    assert(next.len() > 1);
                    assert(start =~= head + join_parts(done) + seq![SEPARATOR]);
                }
            }
            i += 1;
        }
        assert(self@.parts.take(self.parts.len() as int) =~= self@.parts);
        out
    }
}

impl PartialEq for RemotePath {
    fn eq(&self, other: &RemotePath) -> (res: bool) {
        if self.absolute != other.absolute || self.parts.len() != other.parts.len() {
            assert(self@.parts.len() == self.parts.len() && other@.parts.len() == other.parts.len());
            return false;
        }
        let mut i: usize = 0;
        while i < self.parts.len()
            invariant
                i <= self.parts.len(),
                self.parts.len() == other.parts.len(),
                forall|j: int| 0 <= j < i ==> self@.parts[j] == other@.parts[j],
            decreases self.parts.len() - i,
        {
            if !same_bytes(&self.parts[i], &other.parts[i]) {
                assert(self@.parts[i as int] != other@.parts[i as int]);
                return false;
            }
            i += 1;
        }
        assert(self@.parts =~= other@.parts);
        true
    }
}

impl PartialEqSpecImpl for RemotePath {
    open spec fn obeys_eq_spec() -> bool {
        true
    }

    open spec fn eq_spec(&self, other: &RemotePath) -> bool {
        self@ == other@
    }
}

impl Clone for RemotePath {
    fn clone(&self) -> (res: RemotePath)
        ensures
            res@ == self@,
    {
        let mut parts: Vec<Vec<u8>> = Vec::new();
        let mut i: usize = 0;
        while i < self.parts.len()
            invariant
                i <= self.parts.len(),
                parts@.map_values(|p: Vec<u8>| p@) == self@.parts.take(i as int),
            decreases self.parts.len() - i,
        {
            let part = copy_bytes(self.parts[i].as_slice());
            parts.push(part);
            assert(parts@.map_values(|p: Vec<u8>| p@) =~= self@.parts.take(i as int).push(
                self@.parts[i as int],
            ));
            assert(self@.parts.take(i as int + 1) =~= self@.parts.take(i as int).push(
                self@.parts[i as int],
            ));
            i += 1;
        }
        assert(self@.parts.take(self.parts.len() as int) =~= self@.parts);
        RemotePath { absolute: self.absolute, parts }
    }
}

} // verus!
