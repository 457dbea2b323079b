//! What is settled before the mount: the options of the mount, the full path
//! of the mount point, and the directory of the remote side that becomes the
//! root of the mounted tree.

use crate::cmdline_opt::{chars_of, trim, trim_range, Opt};
use crate::ssh_filesystem::attr::{spec_file_type, RemoteFileType, RemoteStat};
use crate::ssh_filesystem::path::{parse_path, PathView, RemotePath};
use vstd::prelude::*;

verus! {

/// An option of the mount.
#[derive(Debug, PartialEq, Eq)]
pub enum MountOption {
    /// The name of the filesystem.
    FSName(String),
    NoDev,
    DirSync,
    Sync,
    RO,
    RW,
    NoExec,
    Exec,
    NoAtime,
    Atime,
}

/// The name under which the filesystem is mounted.
pub open spec fn fs_name() -> Seq<char> {
    "sshfs"@
}

/// Whether `o` names the filesystem `sshfs`.
pub open spec fn is_fs_name(o: MountOption) -> bool {
    o matches MountOption::FSName(n) && n@ == fs_name()
}

/// The options of the mount for the options of the command line: the name
/// of the filesystem, no devices, synchronous directories and files, and
/// then one of each pair as the command line says.
pub open spec fn mount_options_for(res: Seq<MountOption>, opt: Opt) -> bool {
    &&& res.len() == 7
    &&& is_fs_name(res[0])
    &&& res[1] == MountOption::NoDev
    &&& res[2] == MountOption::DirSync
    &&& res[3] == MountOption::Sync
    &&& res[4] == if opt.readonly {
        MountOption::RO
    } else {
        MountOption::RW
    }
    &&& res[5] == if opt.no_exec {
        MountOption::NoExec
    } else {
        MountOption::Exec
    }
    &&& res[6] == if opt.no_atime {
        MountOption::NoAtime
    } else {
        MountOption::Atime
    }
}

/// The options of the mount for the options of the command line.
pub fn make_mount_option(cmd_opt: &Opt) -> (options: Vec<MountOption>)
    ensures
        mount_options_for(options@, *cmd_opt),
{
    let mut options: Vec<MountOption> = Vec::new();
    options.push(MountOption::FSName("sshfs".to_owned()));
    options.push(MountOption::NoDev);
    options.push(MountOption::DirSync);
    options.push(MountOption::Sync);
    if cmd_opt.readonly {
        options.push(MountOption::RO);
    } else {
        options.push(MountOption::RW);
    }
    if cmd_opt.no_exec {
        options.push(MountOption::NoExec);
    } else {
        options.push(MountOption::Exec);
    }
    if cmd_opt.no_atime {
        options.push(MountOption::NoAtime);
    } else {
        options.push(MountOption::Atime);
    }
    options
}

/// The full path of the mount point `path`, when `current_dir` is the
/// directory that the program runs in: `path` itself if it is absolute.
pub fn make_full_path(path: &RemotePath, current_dir: &RemotePath) -> (res: RemotePath)
    ensures
        res@ == current_dir@.join(path@),
{
    current_dir.join(path)
}

/// The directory that the output `text` of `pwd` names.
pub open spec fn spec_home(text: Seq<char>) -> PathView {
    parse_path(vstd::utf8::encode_utf8(trim(text)))
}

/// The directory that the output `text` of `pwd` names: the text is
/// trimmed and read as a path.
pub fn home_of_output(text: &str) -> (res: RemotePath)
    ensures
        res@ == spec_home(text@),
{
    let chars = chars_of(text);
    let (a, b) = trim_range(&chars, 0, chars.len());
    assert(chars@.subrange(0, chars.len() as int) =~= text@);
    RemotePath::from_bytes(text.substring_char(a, b).as_bytes())
}

/// Why the root of the mounted tree could not be settled.
#[derive(Debug, Clone, Copy, PartialEq, Eq, Structural)]
pub enum RootError {
    /// The home directory of the remote side could not be learnt.
    Home,
    /// The path does not exist on the remote side.
    NotFound,
    /// The path is no directory.
    NotDirectory,
    /// The attributes of the directory could not be read.
    Attributes,
    /// The link could not be read.
    Link,
    /// The home directory, from which the target of the link is read, could
    /// not be learnt.
    LinkHome,
}

/// What the driver is asked to do for the root.
#[derive(Debug)]
pub enum RootAction<P> {
    /// Run `pwd` on the remote side.
    Pwd,
    /// Ask about a path, following links.
    Stat(P),
    /// Ask about a path, without following a final link.
    Lstat(P),
    /// Read the target of a link.
    Readlink(P),
}

/// How an action for the root ended. `S` holds text, `B` bytes.
#[derive(Debug)]
pub enum RootOutcome<S, B> {
    /// The action failed.
    Failed,
    /// What `pwd` printed.
    Output(S),
    /// What `pwd` printed is no text.
    NotText,
    /// What the remote side says of the path.
    Stat(RemoteStat),
    /// The target of the link.
    Link(B),
}

/// What is remembered while the driver performs an action for the root.
#[derive(Debug)]
pub enum RootPending<P> {
    /// The home directory is awaited, to read `relative` from it; with
    /// `None`, the home directory itself is the path.
    Home { relative: Option<P> },
    /// It is being checked that the path is a directory.
    Checking(P),
    /// It is being looked whether the path is a link.
    Linking(P),
    /// The target of the link is awaited.
    Resolving,
    /// The home directory is awaited, to read the target of the link from
    /// it.
    LinkHome(P),
}

/// One step of settling the root.
#[derive(Debug)]
pub enum RootStep<P> {
    /// The root is this directory.
    Done(P),
    /// There is no root.
    Failed(RootError),
    /// The driver is to perform the action and to go on with the pending
    /// state and the outcome.
    Call(RootAction<P>, RootPending<P>),
}

impl View for RootAction<RemotePath> {
    type V = RootAction<PathView>;

    open spec fn view(&self) -> RootAction<PathView> {
        match *self {
            RootAction::Pwd => RootAction::Pwd,
            RootAction::Stat(p) => RootAction::Stat(p@),
            RootAction::Lstat(p) => RootAction::Lstat(p@),
            RootAction::Readlink(p) => RootAction::Readlink(p@),
        }
    }
}

impl View for RootOutcome<String, Vec<u8>> {
    type V = RootOutcome<Seq<char>, Seq<u8>>;

    open spec fn view(&self) -> RootOutcome<Seq<char>, Seq<u8>> {
        match *self {
            RootOutcome::Failed => RootOutcome::Failed,
            RootOutcome::Output(s) => RootOutcome::Output(s@),
            RootOutcome::NotText => RootOutcome::NotText,
            RootOutcome::Stat(s) => RootOutcome::Stat(s),
            RootOutcome::Link(b) => RootOutcome::Link(b@),
        }
    }
}

impl View for RootPending<RemotePath> {
    type V = RootPending<PathView>;

    open spec fn view(&self) -> RootPending<PathView> {
        match *self {
            RootPending::Home { relative } => RootPending::Home {
                relative: match relative {
                    Some(p) => Some(p@),
                    None => None,
                },
            },
            RootPending::Checking(p) => RootPending::Checking(p@),
            RootPending::Linking(p) => RootPending::Linking(p@),
            RootPending::Resolving => RootPending::Resolving,
            RootPending::LinkHome(p) => RootPending::LinkHome(p@),
        }
    }
}

impl View for RootStep<RemotePath> {
    type V = RootStep<PathView>;

    open spec fn view(&self) -> RootStep<PathView> {
        match *self {
            RootStep::Done(p) => RootStep::Done(p@),
            RootStep::Failed(e) => RootStep::Failed(e),
            RootStep::Call(a, p) => RootStep::Call(a@, p@),
        }
    }
}

/// The check that `path` is a directory.
pub open spec fn spec_check(path: PathView) -> RootStep<PathView> {
    RootStep::Call(RootAction::Stat(path), RootPending::Checking(path))
}

/// How settling the root starts: an absolute path is checked as it is; a
/// relative path, and no path, need the home directory first.
pub open spec fn spec_make_remote_path(requested: Option<PathView>) -> RootStep<PathView> {
    match requested {
        Some(p) => if p.absolute {
            spec_check(p)
        } else {
            RootStep::Call(RootAction::Pwd, RootPending::Home { relative: Some(p) })
        },
        None => RootStep::Call(RootAction::Pwd, RootPending::Home { relative: None }),
    }
}

/// How settling the root goes on. The path must exist and be a directory,
/// links followed. If the path itself is a link, its target is the root,
/// read from the home directory if it is relative. An outcome of a kind
/// that is not awaited counts as a failure of the action.
pub open spec fn spec_resume_remote_path(
    pending: RootPending<PathView>,
    outcome: RootOutcome<Seq<char>, Seq<u8>>,
) -> RootStep<PathView> {
    match pending {
        RootPending::Home { relative } => match outcome {
            RootOutcome::Output(text) => match relative {
                Some(p) => spec_check(spec_home(text).join(p)),
                None => spec_check(spec_home(text)),
            },
            _ => RootStep::Failed(RootError::Home),
        },
        RootPending::Checking(path) => match outcome {
            RootOutcome::Stat(stat) => if spec_file_type(stat.perm) == RemoteFileType::Directory {
                RootStep::Call(RootAction::Lstat(path), RootPending::Linking(path))
            } else {
                RootStep::Failed(RootError::NotDirectory)
            },
            _ => RootStep::Failed(RootError::NotFound),
        },
        RootPending::Linking(path) => match outcome {
            RootOutcome::Stat(stat) => if spec_file_type(stat.perm) == RemoteFileType::Symlink {
                RootStep::Call(RootAction::Readlink(path), RootPending::Resolving)
            } else {
                RootStep::Done(path)
            },
            _ => RootStep::Failed(RootError::Attributes),
        },
        RootPending::Resolving => match outcome {
            RootOutcome::Link(target) => if parse_path(target).absolute {
                RootStep::Done(parse_path(target))
            } else {
                RootStep::Call(RootAction::Pwd, RootPending::LinkHome(parse_path(target)))
            },
            _ => RootStep::Failed(RootError::Link),
        },
        RootPending::LinkHome(target) => match outcome {
            RootOutcome::Output(text) => RootStep::Done(spec_home(text).join(target)),
            _ => RootStep::Failed(RootError::LinkHome),
        },
    }
}

fn check(path: RemotePath) -> (res: RootStep<RemotePath>)
    ensures
        res@ == spec_check(path@),
{
    let asked = path.clone();
    RootStep::Call(RootAction::Stat(asked), RootPending::Checking(path))
}

/// Starts to settle the directory of the remote side that becomes the root
/// of the mounted tree, for the path that the command line asks for.
pub fn make_remote_path(requested: Option<RemotePath>) -> (res: RootStep<RemotePath>)
    ensures
        res@ == spec_make_remote_path(
            match requested {
                Some(p) => Some(p@),
                None => None,
            },
        ),
{
    match requested {
        Some(p) => {
            if p.is_absolute() {
                check(p)
            } else {
                RootStep::Call(RootAction::Pwd, RootPending::Home { relative: Some(p) })
            }
        },
        None => RootStep::Call(RootAction::Pwd, RootPending::Home { relative: None }),
    }
}

/// Goes on with settling the root: `outcome` is how the action ended that
/// was handed out together with `pending`.
pub fn resume_remote_path(pending: RootPending<RemotePath>, outcome: RootOutcome<String, Vec<u8>>)
    -> (res: RootStep<RemotePath>)
    ensures
        res@ == spec_resume_remote_path(pending@, outcome@),
{
    match pending {
        RootPending::Home { relative } => match outcome {
            RootOutcome::Output(text) => {
                let home = home_of_output(text.as_str());
                match relative {
                    Some(p) => check(home.join(&p)),
                    None => check(home),
                }
            },
            _ => RootStep::Failed(RootError::Home),
        },
        RootPending::Checking(path) => match outcome {
            RootOutcome::Stat(stat) => {
                if stat.is_dir() {
                    let asked = path.clone();
                    RootStep::Call(RootAction::Lstat(asked), RootPending::Linking(path))
                } else {
                    RootStep::Failed(RootError::NotDirectory)
                }
            },
            _ => RootStep::Failed(RootError::NotFound),
        },
        RootPending::Linking(path) => match outcome {
            RootOutcome::Stat(stat) => {
                if stat.is_symlink() {
                    RootStep::Call(RootAction::Readlink(path), RootPending::Resolving)
                } else {
                    RootStep::Done(path)
                }
            },
            _ => RootStep::Failed(RootError::Attributes),
        },
        RootPending::Resolving => match outcome {
            RootOutcome::Link(target) => {
                let t = RemotePath::from_bytes(target.as_slice());
                if t.is_absolute() {
                    RootStep::Done(t)
                } else {
                    RootStep::Call(RootAction::Pwd, RootPending::LinkHome(t))
                }
            },
            _ => RootStep::Failed(RootError::Link),
        },
        RootPending::LinkHome(target) => match outcome {
            RootOutcome::Output(text) => {
                let home = home_of_output(text.as_str());
                RootStep::Done(home.join(&target))
            },
            _ => RootStep::Failed(RootError::LinkHome),
        },
    }
}

} // verus!
