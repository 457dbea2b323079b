use sshfs::cmdline_opt::{exist_dir, DirProbe, MountPointError, Opt, RemoteName};
use sshfs::fuse_util::{
    home_of_output, make_full_path, make_mount_option, make_remote_path, resume_remote_path,
    MountOption, RootAction, RootError, RootOutcome, RootPending, RootStep,
};
use sshfs::ssh_filesystem::attr::RemoteStat;
use sshfs::ssh_filesystem::path::RemotePath;
use sshfs::ssh_filesystem::posix::{S_IFDIR, S_IFLNK, S_IFREG};
use std::io::ErrorKind;

fn path(s: &str) -> RemotePath {
    RemotePath::from_bytes(s.as_bytes())
}

fn opt(readonly: bool, no_exec: bool, no_atime: bool) -> Opt {
    Opt {
        remote: RemoteName { user: None, host: "h".to_string(), path: None },
        mount_point: "/mnt".to_string(),
        config_file: None,
        login_name: None,
        identity: None,
        port: 22,
        readonly,
        no_exec,
        no_atime,
        daemon: false,
    }
}

#[test]
fn mount_options_follow_the_command_line() {
    assert_eq!(
        make_mount_option(&opt(false, false, false)),
        vec![
            MountOption::FSName("sshfs".to_string()),
            MountOption::NoDev,
            MountOption::DirSync,
            MountOption::Sync,
            MountOption::RW,
            MountOption::Exec,
            MountOption::Atime,
        ]
    );
    assert_eq!(
        make_mount_option(&opt(true, true, true)),
        vec![
            MountOption::FSName("sshfs".to_string()),
            MountOption::NoDev,
            MountOption::DirSync,
            MountOption::Sync,
            MountOption::RO,
            MountOption::NoExec,
            MountOption::NoAtime,
        ]
    );
    assert_eq!(make_mount_option(&opt(true, false, false))[4..], [MountOption::RO, MountOption::Exec, MountOption::Atime]);
    assert_eq!(make_mount_option(&opt(false, true, false))[4..], [MountOption::RW, MountOption::NoExec, MountOption::Atime]);
    assert_eq!(make_mount_option(&opt(false, false, true))[4..], [MountOption::RW, MountOption::Exec, MountOption::NoAtime]);
}

#[test]
fn full_path_of_the_mount_point() {
    assert_eq!(make_full_path(&path("/mnt/x"), &path("/home/me")), path("/mnt/x"));
    assert_eq!(make_full_path(&path("mnt/x"), &path("/home/me")), path("/home/me/mnt/x"));
    assert_eq!(make_full_path(&path("./mnt"), &path("/home/me")), path("/home/me/mnt"));
    assert_eq!(make_full_path(&path(""), &path("/home/me")), path("/home/me"));
}

#[test]
fn mount_directory_must_exist_and_be_empty() {
    assert!(matches!(exist_dir(DirProbe::Empty), Ok(())));
    assert!(matches!(exist_dir(DirProbe::NotEmpty), Err(MountPointError::NotEmpty)));
    assert!(matches!(exist_dir(DirProbe::Failed(ErrorKind::NotFound)), Err(MountPointError::Missing)));
    assert!(matches!(
        exist_dir(DirProbe::Failed(ErrorKind::NotConnected)),
        Err(MountPointError::Disconnected)
    ));
    assert!(matches!(
        exist_dir(DirProbe::Failed(ErrorKind::PermissionDenied)),
        Err(MountPointError::Unexpected(ErrorKind::PermissionDenied))
    ));
}

#[test]
fn home_is_the_trimmed_output() {
    assert_eq!(home_of_output("/home/me\n"), path("/home/me"));
    assert_eq!(home_of_output("  /home/me \r\n"), path("/home/me"));
    assert_eq!(home_of_output(""), path(""));
    assert_eq!(home_of_output("\n"), path(""));
    assert_eq!(home_of_output("/with space/x\n"), path("/with space/x"));
}

fn stat(perm: u32) -> RootOutcome<String, Vec<u8>> {
    RootOutcome::Stat(RemoteStat { size: None, uid: None, gid: None, perm: Some(perm), atime: None, mtime: None })
}

/// Settles the root against answers that are given in order; returns the
/// result and what was asked.
fn settle(requested: Option<&str>, answers: Vec<RootOutcome<String, Vec<u8>>>) -> (Result<RemotePath, RootError>, Vec<String>) {
    let mut asked = Vec::new();
    let mut answers = answers.into_iter();
    let mut step = make_remote_path(requested.map(path));
    loop {
        match step {
            RootStep::Done(p) => {
                assert!(answers.next().is_none());
                return (Ok(p), asked);
            }
            RootStep::Failed(e) => {
                assert!(answers.next().is_none());
                return (Err(e), asked);
            }
            RootStep::Call(action, pending) => {
                asked.push(match &action {
                    RootAction::Pwd => "pwd".to_string(),
                    RootAction::Stat(p) => format!("stat {}", String::from_utf8(p.to_bytes()).unwrap()),
                    RootAction::Lstat(p) => format!("lstat {}", String::from_utf8(p.to_bytes()).unwrap()),
                    RootAction::Readlink(p) => format!("readlink {}", String::from_utf8(p.to_bytes()).unwrap()),
                });
                step = resume_remote_path(pending, answers.next().expect("an answer for each action"));
            }
        }
    }
}

#[test]
fn root_from_an_absolute_path() {
    let (res, asked) = settle(Some("/srv/data"), vec![stat(S_IFDIR | 0o755), stat(S_IFDIR | 0o755)]);
    assert_eq!(res, Ok(path("/srv/data")));
    assert_eq!(asked, vec!["stat /srv/data", "lstat /srv/data"]);
}

#[test]
fn root_from_a_relative_path_and_from_none() {
    let home = || RootOutcome::Output("/home/me\n".to_string());
    let (res, asked) = settle(Some("data"), vec![home(), stat(S_IFDIR), stat(S_IFDIR)]);
    assert_eq!(res, Ok(path("/home/me/data")));
    assert_eq!(asked, vec!["pwd", "stat /home/me/data", "lstat /home/me/data"]);
    let (res, asked) = settle(None, vec![home(), stat(S_IFDIR), stat(S_IFDIR)]);
    assert_eq!(res, Ok(path("/home/me")));
    assert_eq!(asked, vec!["pwd", "stat /home/me", "lstat /home/me"]);
}

#[test]
fn root_behind_a_link() {
    let (res, asked) = settle(
        Some("/srv/ln"),
        vec![stat(S_IFDIR), stat(S_IFLNK | 0o777), RootOutcome::Link(b"/real/dir".to_vec())],
    );
    assert_eq!(res, Ok(path("/real/dir")));
    assert_eq!(asked, vec!["stat /srv/ln", "lstat /srv/ln", "readlink /srv/ln"]);
    let (res, asked) = settle(
        Some("/srv/ln"),
        vec![
            stat(S_IFDIR),
            stat(S_IFLNK | 0o777),
            RootOutcome::Link(b"real".to_vec()),
            RootOutcome::Output(" /home/me ".to_string()),
        ],
    );
    assert_eq!(res, Ok(path("/home/me/real")));
    assert_eq!(asked, vec!["stat /srv/ln", "lstat /srv/ln", "readlink /srv/ln", "pwd"]);
}

#[test]
fn root_that_cannot_be_settled() {
    assert_eq!(settle(None, vec![RootOutcome::Failed]).0, Err(RootError::Home));
    assert_eq!(settle(Some("x"), vec![RootOutcome::NotText]).0, Err(RootError::Home));
    assert_eq!(settle(Some("/x"), vec![RootOutcome::Failed]).0, Err(RootError::NotFound));
    assert_eq!(settle(Some("/x"), vec![stat(S_IFREG | 0o644)]).0, Err(RootError::NotDirectory));
    assert_eq!(settle(Some("/x"), vec![stat(S_IFDIR), RootOutcome::Failed]).0, Err(RootError::Attributes));
    assert_eq!(
        settle(Some("/x"), vec![stat(S_IFDIR), stat(S_IFLNK), RootOutcome::Failed]).0,
        Err(RootError::Link)
    );
    assert_eq!(
        settle(
            Some("/x"),
            vec![stat(S_IFDIR), stat(S_IFLNK), RootOutcome::Link(b"rel".to_vec()), RootOutcome::Failed]
        )
        .0,
        Err(RootError::LinkHome)
    );
    // pending states can be made by hand too
    assert!(matches!(
        resume_remote_path(RootPending::Resolving, RootOutcome::Output(String::new())),
        RootStep::Failed(RootError::Link)
    ));
}
