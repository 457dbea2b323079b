//! The decisions of connecting: which user logs in, which key file is
//! offered, which configuration file is read, and in which order the ways
//! to authenticate are tried.

use crate::ssh_filesystem::path::{PathView, RemotePath};
use std::path::PathBuf;
use vstd::prelude::*;

verus! {

/// What is known of the user who runs the program.
#[derive(Debug)]
pub enum CurrentUser {
    /// The name of the user.
    Name(String),
    /// The user has a name that is no text.
    NotText,
    /// The user has no name.
    Unknown,
}

/// Why no user name could be settled.
#[derive(Debug, Clone, Copy, PartialEq, Eq, Structural)]
pub enum UsernameError {
    /// The name of the user who runs the program is no text.
    Invalid,
    /// The user who runs the program has no name.
    Unknown,
}

/// The view of an optional string.
pub open spec fn opt_view(s: Option<String>) -> Option<Seq<char>> {
    match s {
        Some(s) => Some(s@),
        None => None,
    }
}

/// The user who logs in: the login name of the command line if there is
/// one, else the user of the remote name, else the user of the
/// configuration, else the user who runs the program.
pub open spec fn spec_username(
    login_name: Option<Seq<char>>,
    remote_user: Option<Seq<char>>,
    config_user: Option<Seq<char>>,
    current: CurrentUser,
) -> Result<Seq<char>, UsernameError> {
    if let Some(n) = login_name {
        Ok(n)
    } else if let Some(n) = remote_user {
        Ok(n)
    } else if let Some(n) = config_user {
        Ok(n)
    } else {
        match current {
            CurrentUser::Name(n) => Ok(n@),
            CurrentUser::NotText => Err(UsernameError::Invalid),
            CurrentUser::Unknown => Err(UsernameError::Unknown),
        }
    }
}

/// The user who logs in.
pub fn get_username(
    login_name: Option<String>,
    remote_user: Option<String>,
    config_user: Option<String>,
    current: CurrentUser,
) -> (res: Result<String, UsernameError>)
    ensures
        res is Ok <==> spec_username(
            opt_view(login_name),
            opt_view(remote_user),
            opt_view(config_user),
            current,
        ) is Ok,
        match res {
            Ok(n) => Ok::<Seq<char>, UsernameError>(n@) == spec_username(
                opt_view(login_name),
                opt_view(remote_user),
                opt_view(config_user),
                current,
            ),
            Err(e) => Err::<Seq<char>, UsernameError>(e) == spec_username(
                opt_view(login_name),
                opt_view(remote_user),
                opt_view(config_user),
                current,
            ),
        },
{
    if let Some(n) = login_name {
        Ok(n)
    } else if let Some(n) = remote_user {
        Ok(n)
    } else if let Some(n) = config_user {
        Ok(n)
    } else {
        match current {
            CurrentUser::Name(n) => Ok(n),
            CurrentUser::NotText => Err(UsernameError::Invalid),
            CurrentUser::Unknown => Err(UsernameError::Unknown),
        }
    }
}

/// A key file to offer, and where its name comes from.
#[derive(Debug)]
pub struct Identity {
    pub file: PathBuf,
    /// Whether the command line named the file; else the configuration did.
    pub from_command_line: bool,
}

/// The key file to offer: the one of the command line if there is one, else
/// the first one of the configuration.
pub fn get_identity_file(identity: Option<PathBuf>, configured: Option<Vec<PathBuf>>) -> (res:
    Option<Identity>)
    requires
        identity is None ==> (configured matches Some(files) ==> files.len() > 0),
    ensures
        res == match identity {
            Some(file) => Some(Identity { file, from_command_line: true }),
            None => match configured {
                Some(files) => Some(Identity { file: files@[0], from_command_line: false }),
                None => None,
            },
        },
{
    match identity {
        Some(file) => Some(Identity { file, from_command_line: true }),
        None => match configured {
            Some(files) => {
                let mut files = files;
                let file = files.swap_remove(0);
                Some(Identity { file, from_command_line: false })
            },
            None => None,
        },
    }
}

/// The bytes of `.ssh`, the directory of the user's configuration.
pub open spec fn dot_ssh() -> Seq<u8> {
    seq![0x2eu8, 0x73u8, 0x73u8, 0x68u8]
}

/// The bytes of `config`, the name of the user's configuration file.
pub open spec fn config_name() -> Seq<u8> {
    seq![0x63u8, 0x6fu8, 0x6eu8, 0x66u8, 0x69u8, 0x67u8]
}

/// The view of an optional path.
pub open spec fn path_view(p: Option<RemotePath>) -> Option<PathView> {
    match p {
        Some(p) => Some(p@),
        None => None,
    }
}

/// The configuration file to read: the one that is named, else the file
/// `config` in the directory `.ssh` of the home directory, if there is a
/// home directory.
pub open spec fn spec_config_file(file_name: Option<PathView>, home: Option<PathView>) -> Option<
    PathView,
> {
    match file_name {
        Some(f) => Some(f),
        None => match home {
            Some(h) => Some(h.child(dot_ssh()).child(config_name())),
            None => None,
        },
    }
}

/// The configuration file to read.
pub fn get_config_file(file_name: Option<RemotePath>, home: Option<RemotePath>) -> (res: Option<
    RemotePath,
>)
    ensures
        path_view(res) == spec_config_file(path_view(file_name), path_view(home)),
{
    match file_name {
        Some(f) => Some(f),
        None => match home {
            Some(h) => {
                let mut dir: Vec<u8> = Vec::new();
                dir.push(0x2e);
                dir.push(0x73);
                dir.push(0x73);
                dir.push(0x68);
                let mut name: Vec<u8> = Vec::new();
                name.push(0x63);
                name.push(0x6f);
                name.push(0x6e);
                name.push(0x66);
                name.push(0x69);
                name.push(0x67);
                assert(dir@ =~= dot_ssh());
                assert(name@ =~= config_name());
                Some(h.child(dir.as_slice()).child(name.as_slice()))
            },
            None => None,
        },
    }
}

/// The session code with which a key file is refused for want of a
/// passphrase.
pub const SESSION_KEY_FILE: i32 = -16;

/// The session code with which a password is refused.
pub const SESSION_AUTH_FAILED: i32 = -18;

/// How often a passphrase, and how often a password, is asked for.
pub const ATTEMPTS: u8 = 3;

/// What the user is told.
#[derive(Debug, Clone, Copy, PartialEq, Eq, Structural)]
pub enum Complaint {
    PassphraseDiffers,
    PasswordDiffers,
}

/// What the driver is asked to do to authenticate. `S` holds text.
#[derive(Debug)]
pub enum AuthAction<S> {
    /// Try the agent.
    Agent,
    /// Try the key file, with the passphrase if there is one.
    KeyFile { passphrase: Option<S> },
    /// Try the password.
    Password(S),
    /// Ask the user for the passphrase of the key.
    AskPassphrase,
    /// Ask the user for the password.
    AskPassword,
    /// Tell the user.
    Complain(Complaint),
}

/// How an action to authenticate ended.
#[derive(Debug)]
pub enum AuthOutcome<S> {
    /// The remote side accepted, or the user was told.
    Done,
    /// The session refused, with this code.
    Refused(i32),
    /// The action failed otherwise.
    Failed,
    /// What the user typed.
    Typed(S),
}

/// What is remembered while the driver performs an action to
/// authenticate. `attempt` counts the attempts that came before.
#[derive(Debug, Clone, Copy, PartialEq, Eq, Structural)]
pub enum AuthPending {
    Agent { has_key: bool },
    KeyFile,
    Passphrase { attempt: u8 },
    KeyFileWith { attempt: u8 },
    PassphraseWrong { attempt: u8 },
    AskedPassword { attempt: u8 },
    Password { attempt: u8 },
    PasswordWrong { attempt: u8 },
}

/// One step of authenticating.
#[derive(Debug)]
pub enum AuthStep<S> {
    /// The user is authenticated.
    Accepted,
    /// Every way to authenticate has failed.
    Rejected,
    /// The driver is to perform the action and to go on with the pending
    /// state and the outcome.
    Call(AuthAction<S>, AuthPending),
}

impl View for AuthAction<String> {
    type V = AuthAction<Seq<char>>;

    open spec fn view(&self) -> AuthAction<Seq<char>> {
        match *self {
            AuthAction::Agent => AuthAction::Agent,
            AuthAction::KeyFile { passphrase } => AuthAction::KeyFile {
                passphrase: opt_view(passphrase),
            },
            AuthAction::Password(p) => AuthAction::Password(p@),
            AuthAction::AskPassphrase => AuthAction::AskPassphrase,
            AuthAction::AskPassword => AuthAction::AskPassword,
            AuthAction::Complain(c) => AuthAction::Complain(c),
        }
    }
}

impl View for AuthOutcome<String> {
    type V = AuthOutcome<Seq<char>>;

    open spec fn view(&self) -> AuthOutcome<Seq<char>> {
        match *self {
            AuthOutcome::Done => AuthOutcome::Done,
            AuthOutcome::Refused(code) => AuthOutcome::Refused(code),
            AuthOutcome::Failed => AuthOutcome::Failed,
            AuthOutcome::Typed(s) => AuthOutcome::Typed(s@),
        }
    }
}

impl View for AuthStep<String> {
    type V = AuthStep<Seq<char>>;

    open spec fn view(&self) -> AuthStep<Seq<char>> {
        match *self {
            AuthStep::Accepted => AuthStep::Accepted,
            AuthStep::Rejected => AuthStep::Rejected,
            AuthStep::Call(a, p) => AuthStep::Call(a@, p),
        }
    }
}

/// The start of the attempts with a password.
pub open spec fn spec_ask_password() -> AuthStep<Seq<char>> {
    AuthStep::Call(AuthAction::AskPassword, AuthPending::AskedPassword { attempt: 0 })
}

/// How authenticating starts: with the agent.
pub open spec fn spec_userauth(has_key: bool) -> AuthStep<Seq<char>> {
    AuthStep::Call(AuthAction::Agent, AuthPending::Agent { has_key })
}

/// How authenticating goes on. After the agent comes the key file, if
/// there is one: first without a passphrase and, if it is refused for want
/// of one, up to three times with a passphrase that the user is asked for.
/// Last comes the password, which the user is asked for up to three times
/// as long as the remote side says that it is wrong.
pub open spec fn spec_resume_userauth(pending: AuthPending, outcome: AuthOutcome<Seq<char>>)
    -> AuthStep<Seq<char>> {
    match pending {
        AuthPending::Agent { has_key } => match outcome {
            AuthOutcome::Done => AuthStep::Accepted,
            _ => if has_key {
                AuthStep::Call(AuthAction::KeyFile { passphrase: None }, AuthPending::KeyFile)
            } else {
                spec_ask_password()
            },
        },
        AuthPending::KeyFile => match outcome {
            AuthOutcome::Done => AuthStep::Accepted,
            AuthOutcome::Refused(code) => if code == SESSION_KEY_FILE {
                AuthStep::Call(AuthAction::AskPassphrase, AuthPending::Passphrase { attempt: 0 })
            } else {
                spec_ask_password()
            },
            _ => spec_ask_password(),
        },
        AuthPending::Passphrase { attempt } => match outcome {
            AuthOutcome::Typed(p) => AuthStep::Call(
                AuthAction::KeyFile { passphrase: Some(p) },
                AuthPending::KeyFileWith { attempt },
            ),
            _ => spec_ask_password(),
        },
        AuthPending::KeyFileWith { attempt } => match outcome {
            AuthOutcome::Done => AuthStep::Accepted,
            _ => AuthStep::Call(
                AuthAction::Complain(Complaint::PassphraseDiffers),
                AuthPending::PassphraseWrong { attempt },
            ),
        },
        AuthPending::PassphraseWrong { attempt } => if attempt < ATTEMPTS - 1 {
            AuthStep::Call(
                AuthAction::AskPassphrase,
                AuthPending::Passphrase { attempt: (attempt + 1) as u8 },
            )
        } else {
            spec_ask_password()
        },
        AuthPending::AskedPassword { attempt } => match outcome {
            AuthOutcome::Typed(p) => AuthStep::Call(
                AuthAction::Password(p),
                AuthPending::Password { attempt },
            ),
            _ => AuthStep::Rejected,
        },
        AuthPending::Password { attempt } => match outcome {
            AuthOutcome::Done => AuthStep::Accepted,
            AuthOutcome::Refused(code) => if code == SESSION_AUTH_FAILED {
                AuthStep::Call(
                    AuthAction::Complain(Complaint::PasswordDiffers),
                    AuthPending::PasswordWrong { attempt },
                )
            } else {
                AuthStep::Rejected
            },
            _ => AuthStep::Rejected,
        },
        AuthPending::PasswordWrong { attempt } => if attempt < ATTEMPTS - 1 {
            AuthStep::Call(
                AuthAction::AskPassword,
                AuthPending::AskedPassword { attempt: (attempt + 1) as u8 },
            )
        } else {
            AuthStep::Rejected
        },
    }
}

fn ask_password() -> (res: AuthStep<String>)
    ensures
        res@ == spec_ask_password(),
{
    AuthStep::Call(AuthAction::AskPassword, AuthPending::AskedPassword { attempt: 0 })
}

/// Starts to authenticate the user; `has_key` says whether there is a key
/// file to offer.
pub fn userauth(has_key: bool) -> (res: AuthStep<String>)
    ensures
        res@ == spec_userauth(has_key),
{
    AuthStep::Call(AuthAction::Agent, AuthPending::Agent { has_key })
}

/// Goes on with authenticating: `outcome` is how the action ended that was
/// handed out together with `pending`.
pub fn resume_userauth(pending: AuthPending, outcome: AuthOutcome<String>) -> (res: AuthStep<
    String,
>)
    ensures
        res@ == spec_resume_userauth(pending, outcome@),
{
    match pending {
        AuthPending::Agent { has_key } => match outcome {
            AuthOutcome::Done => AuthStep::Accepted,
            _ => {
                if has_key {
                    AuthStep::Call(AuthAction::KeyFile { passphrase: None }, AuthPending::KeyFile)
                } else {
                    ask_password()
                }
            },
        },
        AuthPending::KeyFile => match outcome {
            AuthOutcome::Done => AuthStep::Accepted,
            AuthOutcome::Refused(code) => {
                if code == SESSION_KEY_FILE {
                    AuthStep::Call(
                        AuthAction::AskPassphrase,
                        AuthPending::Passphrase { attempt: 0 },
                    )
                } else {
                    ask_password()
                }
            },
            _ => ask_password(),
        },
        AuthPending::Passphrase { attempt } => match outcome {
            AuthOutcome::Typed(p) => AuthStep::Call(
                AuthAction::KeyFile { passphrase: Some(p) },
                AuthPending::KeyFileWith { attempt },
            ),
            _ => ask_password(),
        },
        AuthPending::KeyFileWith { attempt } => match outcome {
            AuthOutcome::Done => AuthStep::Accepted,
            _ => AuthStep::Call(
                AuthAction::Complain(Complaint::PassphraseDiffers),
                AuthPending::PassphraseWrong { attempt },
            ),
        },
        AuthPending::PassphraseWrong { attempt } => {
            if attempt < ATTEMPTS - 1 {
                AuthStep::Call(
                    AuthAction::AskPassphrase,
                    AuthPending::Passphrase { attempt: attempt + 1 },
                )
            } else {
                ask_password()
            }
        },
        AuthPending::AskedPassword { attempt } => match outcome {
            AuthOutcome::Typed(p) => AuthStep::Call(
                AuthAction::Password(p),
                AuthPending::Password { attempt },
            ),
            _ => AuthStep::Rejected,
        },
        AuthPending::Password { attempt } => match outcome {
            AuthOutcome::Done => AuthStep::Accepted,
            AuthOutcome::Refused(code) => {
                if code == SESSION_AUTH_FAILED {
                    AuthStep::Call(
                        AuthAction::Complain(Complaint::PasswordDiffers),
                        AuthPending::PasswordWrong { attempt },
                    )
                } else {
                    AuthStep::Rejected
                }
            },
            _ => AuthStep::Rejected,
        },
        AuthPending::PasswordWrong { attempt } => {
            if attempt < ATTEMPTS - 1 {
                AuthStep::Call(
                    AuthAction::AskPassword,
                    AuthPending::AskedPassword { attempt: attempt + 1 },
                )
            } else {
                AuthStep::Rejected
            }
        },
    }
}

} // verus!
