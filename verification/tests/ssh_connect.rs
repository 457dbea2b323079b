use sshfs::ssh_connect::{
    get_config_file, get_identity_file, get_username, resume_userauth, userauth, AuthAction,
    AuthOutcome, AuthPending, AuthStep, Complaint, CurrentUser, UsernameError,
};
use sshfs::ssh_filesystem::path::RemotePath;
use std::path::PathBuf;

fn s(x: &str) -> Option<String> {
    Some(x.to_string())
}

#[test]
fn the_user_comes_from_the_first_source_that_names_one() {
    let me = || CurrentUser::Name("me".to_string());
    assert_eq!(get_username(s("a"), s("b"), s("c"), me()), Ok("a".to_string()));
    assert_eq!(get_username(None, s("b"), s("c"), me()), Ok("b".to_string()));
    assert_eq!(get_username(None, None, s("c"), me()), Ok("c".to_string()));
    assert_eq!(get_username(None, None, None, me()), Ok("me".to_string()));
    assert_eq!(get_username(None, None, None, CurrentUser::NotText), Err(UsernameError::Invalid));
    assert_eq!(get_username(None, None, None, CurrentUser::Unknown), Err(UsernameError::Unknown));
    assert_eq!(get_username(s("a"), None, None, CurrentUser::Unknown), Ok("a".to_string()));
    assert_eq!(get_username(None, s(""), None, CurrentUser::NotText), Ok(String::new()));
}

#[test]
fn the_key_file_comes_from_the_command_line_first() {
    let cli = PathBuf::from("/k/cli");
    let conf = vec![PathBuf::from("/k/one"), PathBuf::from("/k/two")];
    let got = get_identity_file(Some(cli.clone()), Some(conf.clone())).unwrap();
    assert_eq!((got.file, got.from_command_line), (cli.clone(), true));
    let got = get_identity_file(Some(cli.clone()), None).unwrap();
    assert_eq!((got.file, got.from_command_line), (cli, true));
    let got = get_identity_file(None, Some(conf)).unwrap();
    assert_eq!((got.file, got.from_command_line), (PathBuf::from("/k/one"), false));
    assert!(get_identity_file(None, None).is_none());
}

#[test]
fn the_configuration_file_lies_below_home_unless_it_is_named() {
    let path = |s: &str| RemotePath::from_bytes(s.as_bytes());
    assert_eq!(get_config_file(Some(path("/etc/my_config")), Some(path("/home/me"))), Some(path("/etc/my_config")));
    assert_eq!(get_config_file(Some(path("my_config")), None), Some(path("my_config")));
    assert_eq!(get_config_file(None, Some(path("/home/me"))), Some(path("/home/me/.ssh/config")));
    assert_eq!(get_config_file(None, Some(path("/home/me/"))).unwrap().to_bytes(), b"/home/me/.ssh/config".to_vec());
    assert_eq!(get_config_file(None, Some(path("/"))), Some(path("/.ssh/config")));
    assert_eq!(get_config_file(None, Some(path("rel"))), Some(path("rel/.ssh/config")));
    assert_eq!(get_config_file(None, None), None);
    // as the standard library joins them
    let joined = std::path::Path::new("/home/me").join(".ssh/config");
    assert_eq!(get_config_file(None, Some(path("/home/me"))), Some(path(joined.to_str().unwrap())));
}

/// Authenticates against answers that are given in order; returns whether
/// the user was accepted and what was done.
fn authenticate(has_key: bool, answers: Vec<AuthOutcome<String>>) -> (bool, Vec<String>) {
    let mut done = Vec::new();
    let mut answers = answers.into_iter();
    let mut step = userauth(has_key);
    loop {
        match step {
            AuthStep::Accepted => {
                assert!(answers.next().is_none());
                return (true, done);
            }
            AuthStep::Rejected => {
                assert!(answers.next().is_none());
                return (false, done);
            }
            AuthStep::Call(action, pending) => {
                done.push(match &action {
                    AuthAction::Agent => "agent".to_string(),
                    AuthAction::KeyFile { passphrase: None } => "key".to_string(),
                    AuthAction::KeyFile { passphrase: Some(p) } => format!("key with {}", p),
                    AuthAction::Password(p) => format!("password {}", p),
                    AuthAction::AskPassphrase => "ask passphrase".to_string(),
                    AuthAction::AskPassword => "ask password".to_string(),
                    AuthAction::Complain(Complaint::PassphraseDiffers) => "passphrase differs".to_string(),
                    AuthAction::Complain(Complaint::PasswordDiffers) => "password differs".to_string(),
                });
                step = resume_userauth(pending, answers.next().expect("an answer for each action"));
            }
        }
    }
}

fn typed(x: &str) -> AuthOutcome<String> {
    AuthOutcome::Typed(x.to_string())
}

#[test]
fn the_agent_is_tried_first() {
    assert_eq!(authenticate(true, vec![AuthOutcome::Done]), (true, vec!["agent".to_string()]));
    assert_eq!(authenticate(false, vec![AuthOutcome::Done]), (true, vec!["agent".to_string()]));
}

#[test]
fn the_key_file_is_tried_with_a_passphrase_when_it_wants_one() {
    let (ok, done) = authenticate(true, vec![AuthOutcome::Failed, AuthOutcome::Done]);
    assert!(ok);
    assert_eq!(done, vec!["agent", "key"]);

    let (ok, done) = authenticate(
        true,
        vec![
            AuthOutcome::Refused(-18),
            AuthOutcome::Refused(-16),
            typed("one"),
            AuthOutcome::Refused(-16),
            AuthOutcome::Done,
            typed("two"),
            AuthOutcome::Done,
        ],
    );
    assert!(ok);
    assert_eq!(
        done,
        vec!["agent", "key", "ask passphrase", "key with one", "passphrase differs", "ask passphrase", "key with two"]
    );

    // three wrong passphrases, then the password
    let (ok, done) = authenticate(
        true,
        vec![
            AuthOutcome::Failed,
            AuthOutcome::Refused(-16),
            typed("a"),
            AuthOutcome::Failed,
            AuthOutcome::Done,
            typed("b"),
            AuthOutcome::Failed,
            AuthOutcome::Done,
            typed("c"),
            AuthOutcome::Failed,
            AuthOutcome::Done,
            typed("pw"),
            AuthOutcome::Done,
        ],
    );
    assert!(ok);
    assert_eq!(
        done,
        vec![
            "agent", "key", "ask passphrase", "key with a", "passphrase differs", "ask passphrase",
            "key with b", "passphrase differs", "ask passphrase", "key with c", "passphrase differs",
            "ask password", "password pw",
        ]
    );

    // a key that is refused for another reason is not tried again
    let (ok, done) = authenticate(
        true,
        vec![AuthOutcome::Failed, AuthOutcome::Refused(-19), typed("pw"), AuthOutcome::Done],
    );
    assert!(ok);
    assert_eq!(done, vec!["agent", "key", "ask password", "password pw"]);

    // a passphrase that cannot be asked for leads on to the password
    let (ok, done) = authenticate(
        true,
        vec![AuthOutcome::Failed, AuthOutcome::Refused(-16), AuthOutcome::Failed, AuthOutcome::Failed],
    );
    assert!(!ok);
    assert_eq!(done, vec!["agent", "key", "ask passphrase", "ask password"]);
}

#[test]
fn the_password_is_asked_for_three_times_at_most() {
    let (ok, done) = authenticate(
        false,
        vec![
            AuthOutcome::Failed,
            typed("x"),
            AuthOutcome::Refused(-18),
            AuthOutcome::Done,
            typed("y"),
            AuthOutcome::Refused(-18),
            AuthOutcome::Done,
            typed("z"),
            AuthOutcome::Refused(-18),
            AuthOutcome::Done,
        ],
    );
    assert!(!ok);
    assert_eq!(
        done,
        vec![
            "agent", "ask password", "password x", "password differs", "ask password", "password y",
            "password differs", "ask password", "password z", "password differs",
        ]
    );
    // another refusal ends the attempts at once
    let (ok, done) = authenticate(false, vec![AuthOutcome::Failed, typed("x"), AuthOutcome::Refused(-16)]);
    assert!(!ok);
    assert_eq!(done, vec!["agent", "ask password", "password x"]);
    let (ok, _) = authenticate(false, vec![AuthOutcome::Failed, typed("x"), AuthOutcome::Failed]);
    assert!(!ok);
    // the last attempt may succeed
    let (ok, _) = authenticate(
        false,
        vec![
            AuthOutcome::Failed,
            typed("x"),
            AuthOutcome::Refused(-18),
            AuthOutcome::Done,
            typed("y"),
            AuthOutcome::Refused(-18),
            AuthOutcome::Done,
            typed("z"),
            AuthOutcome::Done,
        ],
    );
    assert!(ok);
    assert!(matches!(
        resume_userauth(AuthPending::PasswordWrong { attempt: 2 }, AuthOutcome::Done),
        AuthStep::Rejected
    ));
    assert!(matches!(
        resume_userauth(AuthPending::PasswordWrong { attempt: 200 }, AuthOutcome::Done),
        AuthStep::Rejected
    ));
}
