//! The options of the command line, and the name of the remote side as it is
//! written there: `[user@]host:[path]`.

use crate::ssh_filesystem::path::{parse_path, PathView, RemotePath};
use std::io::ErrorKind;
use std::path::PathBuf;
use vstd::prelude::*;

verus! {

/// `std::path::PathBuf`, a path on this machine. It is carried through and
/// never looked into.
#[verifier::external_type_specification]
#[verifier::external_body]
pub struct ExPathBuf(PathBuf);

/// The options of the command line.
#[derive(Debug)]
pub struct Opt {
    /// The remote side, `[user@]host:[path]`.
    pub remote: RemoteName,
    /// The directory to mount on.
    pub mount_point: String,
    /// The configuration file to read in place of the user's own.
    pub config_file: Option<PathBuf>,
    /// The login name.
    pub login_name: Option<String>,
    /// The file that holds the secret key.
    pub identity: Option<PathBuf>,
    /// The port of the remote side.
    pub port: u16,
    /// Mount for reading only.
    pub readonly: bool,
    /// Mount without permission to execute.
    pub no_exec: bool,
    /// Mount without updates of access times.
    pub no_atime: bool,
    /// Run in the background.
    pub daemon: bool,
}

/// What a look into the directory to mount on has shown.
#[derive(Debug, Clone, Copy)]
pub enum DirProbe {
    /// The directory holds nothing.
    Empty,
    /// The directory holds something.
    NotEmpty,
    /// The directory could not be read.
    Failed(ErrorKind),
}

/// Why a directory cannot be mounted on.
#[derive(Debug, Clone, Copy)]
pub enum MountPointError {
    /// The directory is not empty.
    NotEmpty,
    /// The directory does not exist.
    Missing,
    /// The directory lies on a network that is not connected; a mount may
    /// have been left behind there.
    Disconnected,
    /// The directory could not be read, for another reason.
    Unexpected(ErrorKind),
}

/// Whether a directory can be mounted on, by what a look into it has shown:
/// it must exist and be empty.
pub open spec fn spec_exist_dir(probe: DirProbe) -> Result<(), MountPointError> {
    match probe {
        DirProbe::Empty => Ok(()),
        DirProbe::NotEmpty => Err(MountPointError::NotEmpty),
        DirProbe::Failed(kind) => match kind {
            ErrorKind::NotFound => Err(MountPointError::Missing),
            ErrorKind::NotConnected => Err(MountPointError::Disconnected),
            _ => Err(MountPointError::Unexpected(kind)),
        },
    }
}

/// Whether a directory can be mounted on, by what a look into it has shown.
pub fn exist_dir(probe: DirProbe) -> (res: Result<(), MountPointError>)
    ensures
        res == spec_exist_dir(probe),
{
    match probe {
        DirProbe::Empty => Ok(()),
        DirProbe::NotEmpty => Err(MountPointError::NotEmpty),
        DirProbe::Failed(kind) => match kind {
            ErrorKind::NotFound => Err(MountPointError::Missing),
            ErrorKind::NotConnected => Err(MountPointError::Disconnected),
            _ => Err(MountPointError::Unexpected(kind)),
        },
    }
}

/// The remote side as the command line names it.
#[derive(Debug, PartialEq)]
pub struct RemoteName {
    /// The user name.
    pub user: Option<String>,
    /// The host name or address.
    pub host: String,
    /// The path on the remote side.
    pub path: Option<RemotePath>,
}

/// The mathematical value of a [`RemoteName`].
pub struct RemoteNameView {
    pub user: Option<Seq<char>>,
    pub host: Seq<char>,
    pub path: Option<PathView>,
}

impl View for RemoteName {
    type V = RemoteNameView;

    open spec fn view(&self) -> RemoteNameView {
        RemoteNameView {
            user: match self.user {
                Some(u) => Some(u@),
                None => None,
            },
            host: self.host@,
            path: match self.path {
                Some(p) => Some(p@),
                None => None,
            },
        }
    }
}

impl Clone for RemoteName {
    fn clone(&self) -> (res: RemoteName)
        ensures
            res@ == self@,
    {
        RemoteName {
            user: match &self.user {
                Some(u) => Some(u.clone()),
                None => None,
            },
            host: self.host.clone(),
            path: match &self.path {
                Some(p) => Some(p.clone()),
                None => None,
            },
        }
    }
}

/// The error for a remote name that is not of the form `[user@]host:[path]`.
#[derive(Debug, Clone, Copy, PartialEq, Eq)]
pub struct ErrorRemoteName;

impl ErrorRemoteName {
    /// What the error says.
    pub fn message(&self) -> (res: String)
        ensures
            res@ == "接続先ホストの形式は、\"[user@]host:[path]\"です。"@,
    {
        "接続先ホストの形式は、\"[user@]host:[path]\"です。".to_owned()
    }
}

/// Whether `c` is white space: a character with the Unicode property
/// `White_Space`.
pub open spec fn is_space(c: char) -> bool {
    let n = c as u32;
    ||| 0x09 <= n <= 0x0d
    ||| n == 0x20
    ||| n == 0x85
    ||| n == 0xa0
    ||| n == 0x1680
    ||| 0x2000 <= n <= 0x200a
    ||| n == 0x2028
    ||| n == 0x2029
    ||| n == 0x202f
    ||| n == 0x205f
    ||| n == 0x3000
}

/// `s` without the white space at its start.
pub open spec fn trim_start(s: Seq<char>) -> Seq<char>
    decreases s.len(),
{
    if s.len() > 0 && is_space(s[0]) {
        trim_start(s.drop_first())
    } else {
        s
    }
}

/// `s` without the white space at its end.
pub open spec fn trim_end(s: Seq<char>) -> Seq<char>
    decreases s.len(),
{
    if s.len() > 0 && is_space(s.last()) {
        trim_end(s.drop_last())
    } else {
        s
    }
}

/// `s` without the white space at its start and at its end.
pub open spec fn trim(s: Seq<char>) -> Seq<char> {
    trim_end(trim_start(s))
}

/// `s` split at the first `c`: what stands before it and what stands after
/// it.
pub open spec fn split_once(s: Seq<char>, c: char) -> Option<(Seq<char>, Seq<char>)> {
    if exists|i: int| 0 <= i < s.len() && s[i] == c {
        let i = first_at(s, c);
        Some((s.take(i), s.skip(i + 1)))
    } else {
        None
    }
}

/// The least index at which `c` stands in `s`.
pub open spec fn first_at(s: Seq<char>, c: char) -> int {
    choose|i: int| 0 <= i < s.len() && s[i] == c && forall|j: int| 0 <= j < i ==> s[j] != c
}

/// `s` trimmed, if anything is left of it then.
pub open spec fn trimmed_nonempty(s: Seq<char>) -> Option<Seq<char>> {
    if trim(s).len() > 0 {
        Some(trim(s))
    } else {
        None
    }
}

/// The user that `s` names: what stands before the first `@`, trimmed, if
/// there is an `@` and anything is left.
pub open spec fn spec_user(s: Seq<char>) -> Option<Seq<char>> {
    match split_once(s, '@') {
        Some((u, _)) => trimmed_nonempty(u),
        None => None,
    }
}

/// What stands after the first `@` of `s`, or all of `s` if there is none.
pub open spec fn spec_rest(s: Seq<char>) -> Seq<char> {
    match split_once(s, '@') {
        Some((_, r)) => r,
        None => s,
    }
}

/// The host and the path that `rest` names: what stands before the first
/// `:`, trimmed, is the host, which may not be empty; what stands after it,
/// trimmed, is the path, which is absent if nothing is left.
pub open spec fn spec_host_and_path(rest: Seq<char>) -> Option<(Seq<char>, Option<PathView>)> {
    match split_once(rest, ':') {
        None => None,
        Some((h, p)) => match trimmed_nonempty(h) {
            None => None,
            Some(host) => Some(
                (
                    host,
                    match trimmed_nonempty(p) {
                        Some(t) => Some(parse_path(vstd::utf8::encode_utf8(t))),
                        None => None,
                    },
                ),
            ),
        },
    }
}

/// The remote name that `s` spells, if it spells one: `[user@]host:[path]`.
pub open spec fn parse_remote_name(s: Seq<char>) -> Option<RemoteNameView> {
    match spec_host_and_path(spec_rest(s)) {
        None => None,
        Some((host, path)) => Some(RemoteNameView { user: spec_user(s), host, path }),
    }
}

/// Whether `c` is white space.
pub fn is_space_exec(c: char) -> (res: bool)
    ensures
        res == is_space(c),
{
    let n = c as u32;
    (0x09 <= n && n <= 0x0d) || n == 0x20 || n == 0x85 || n == 0xa0 || n == 0x1680 || (0x2000 <= n
        && n <= 0x200a) || n == 0x2028 || n == 0x2029 || n == 0x202f || n == 0x205f || n == 0x3000
}

proof fn lemma_trim_start(s: Seq<char>, k: int)
    requires
        0 <= k <= s.len(),
        forall|j: int| 0 <= j < k ==> is_space(s[j]),
        k == s.len() || !is_space(s[k]),
    ensures
        trim_start(s) == s.skip(k),
    decreases k,
{
    if k == 0 {
        assert(s.skip(0) =~= s);
    } else {
        lemma_trim_start(s.drop_first(), k - 1);
        assert(s.drop_first().skip(k - 1) =~= s.skip(k));
    }
}

proof fn lemma_trim_end(s: Seq<char>, k: int)
    requires
        0 <= k <= s.len(),
        forall|j: int| k <= j < s.len() ==> is_space(s[j]),
        k == 0 || !is_space(s[k - 1]),
    ensures
        trim_end(s) == s.take(k),
    decreases s.len() - k,
{
    if k == s.len() {
        assert(s.take(k) =~= s);
    } else {
        lemma_trim_end(s.drop_last(), k);
        assert(s.drop_last().take(k) =~= s.take(k));
    }
}

/// The chars of `s`.
pub fn chars_of(s: &str) -> (res: Vec<char>)
    ensures
        res@ == s@,
{
    let n = s.unicode_len();
    let mut out: Vec<char> = Vec::new();
    let mut i: usize = 0;
    while i < n
        invariant
            n == s@.len(),
            i <= n,
            out@ == s@.take(i as int),
        decreases n - i,
    {
        out.push(s.get_char(i));
        assert(s@.take(i as int + 1) =~= s@.take(i as int).push(s@[i as int]));
        i += 1;
    }
    assert(s@.take(n as int) =~= s@);
    out
}

/// The first place in `chars[from..]` where `c` stands.
fn find(chars: &Vec<char>, from: usize, c: char) -> (res: Option<usize>)
    requires
        from <= chars.len(),
    ensures
        split_once(chars@.skip(from as int), c) is Some <==> res is Some,
        res matches Some(i) ==> from <= i < chars.len() && split_once(chars@.skip(from as int), c)
            == Some((chars@.subrange(from as int, i as int), chars@.skip(i as int + 1))),
{
    let ghost rest = chars@.skip(from as int);
    let mut i: usize = from;
    while i < chars.len()
        invariant
            from <= i <= chars.len(),
            rest == chars@.skip(from as int),
            forall|j: int| 0 <= j < i - from ==> rest[j] != c,
        decreases chars.len() - i,
    {
        if chars[i] == c {
            proof {
                let k = i - from;
                assert(rest[k] == c);
                let f = first_at(rest, c);
                assert(f == k);
                assert(rest.take(k) =~= chars@.subrange(from as int, i as int));
                assert(rest.skip(k + 1) =~= chars@.skip(i as int + 1));
            }
            return Some(i);
        }
        i += 1;
    }
    None
}

/// The part of `chars[lo..hi]` that is left when it is trimmed.
pub fn trim_range(chars: &Vec<char>, lo: usize, hi: usize) -> (res: (usize, usize))
    requires
        lo <= hi <= chars.len(),
    ensures
        lo <= res.0 <= res.1 <= hi,
        chars@.subrange(res.0 as int, res.1 as int) == trim(chars@.subrange(lo as int, hi as int)),
{
    let ghost s = chars@.subrange(lo as int, hi as int);
    let mut a: usize = lo;
    while a < hi && is_space_exec(chars[a])
        invariant
            lo <= a <= hi <= chars.len(),
            forall|j: int| lo <= j < a ==> is_space(chars@[j]),
        decreases hi - a,
    {
        a += 1;
    }
    proof {
        lemma_trim_start(s, a - lo);
        assert(s.skip(a - lo) =~= chars@.subrange(a as int, hi as int));
    }
    let ghost t = chars@.subrange(a as int, hi as int);
    let mut b: usize = hi;
    while b > a && is_space_exec(chars[b - 1])
        invariant
            a <= b <= hi <= chars.len(),
            forall|j: int| b <= j < hi ==> is_space(chars@[j]),
        decreases b - a,
    {
        b -= 1;
    }
    proof {
        lemma_trim_end(t, b - a);
        assert(t.take(b - a) =~= chars@.subrange(a as int, b as int));
    }
    (a, b)
}

/// The part of `s`, whose chars are `chars`, between `lo` and `hi`,
/// trimmed, if anything is left of it then; with the range that it has in
/// `s`.
fn trimmed_part<'a>(s: &'a str, chars: &Vec<char>, lo: usize, hi: usize) -> (res: Option<&'a str>)
    requires
        chars@ == s@,
        lo <= hi <= chars.len(),
    ensures
        res is Some <==> trimmed_nonempty(chars@.subrange(lo as int, hi as int)) is Some,
        res matches Some(t) ==> Some(t@) == trimmed_nonempty(chars@.subrange(lo as int, hi as int)),
{
    let (a, b) = trim_range(chars, lo, hi);
    if a < b {
        Some(s.substring_char(a, b))
    } else {
        None
    }
}

/// The user that `s` names, and the place in `s` where the rest starts.
fn user_part(s: &str, chars: &Vec<char>) -> (res: (Option<String>, usize))
    requires
        chars@ == s@,
    ensures
        res.1 <= chars.len(),
        chars@.skip(res.1 as int) == spec_rest(s@),
        res.0 is Some <==> spec_user(s@) is Some,
        res.0 matches Some(u) ==> Some(u@) == spec_user(s@),
{
    assert(chars@.skip(0) =~= s@);
    match find(chars, 0, '@') {
        Some(i) => {
            let user = match trimmed_part(s, chars, 0, i) {
                Some(t) => Some(t.to_owned()),
                None => None,
            };
            (user, i + 1)
        },
        None => (None, 0),
    }
}

/// The host and the path that the rest of `s` from `from` on names.
fn host_and_path(s: &str, chars: &Vec<char>, from: usize) -> (res: Option<
    (String, Option<RemotePath>),
>)
    requires
        chars@ == s@,
        from <= chars.len(),
    ensures
        res is Some <==> spec_host_and_path(chars@.skip(from as int)) is Some,
        res matches Some(hp) ==> spec_host_and_path(chars@.skip(from as int)) == Some(
            (
                hp.0@,
                match hp.1 {
                    Some(p) => Some(p@),
                    None => None,
                },
            ),
        ),
{
    let colon = match find(chars, from, ':') {
        Some(j) => j,
        None => {
            return None;
        },
    };
    let host = match trimmed_part(s, chars, from, colon) {
        Some(t) => t.to_owned(),
        None => {
            return None;
        },
    };
    assert(chars@.skip(colon as int + 1) =~= chars@.subrange(
        colon as int + 1,
        chars.len() as int,
    ));
    let path = match trimmed_part(s, chars, colon + 1, chars.len()) {
        Some(t) => Some(RemotePath::from_bytes(t.as_bytes())),
        None => None,
    };
    Some((host, path))
}

impl RemoteName {
    /// Reads a remote name of the form `[user@]host:[path]`.
    pub fn parse(s: &str) -> (res: Result<RemoteName, ErrorRemoteName>)
        ensures
            res is Ok <==> parse_remote_name(s@) is Some,
            res matches Ok(name) ==> Some(name@) == parse_remote_name(s@),
    {
        let chars = chars_of(s);
        let (user, from) = user_part(s, &chars);
        match host_and_path(s, &chars, from) {
            Some((host, path)) => Ok(RemoteName { user, host, path }),
            None => Err(ErrorRemoteName),
        }
    }
}

impl std::str::FromStr for RemoteName {
    type Err = ErrorRemoteName;

    fn from_str(s: &str) -> (res: Result<Self, Self::Err>)
        ensures
            res is Ok <==> parse_remote_name(s@) is Some,
            res matches Ok(name) ==> Some(name@) == parse_remote_name(s@),
    {
        RemoteName::parse(s)
    }
}

} // verus!
