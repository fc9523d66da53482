use lighthouse_api::validators::{
    lockfile_action, lockfile_path, InitAction, InitEvent, InitState, InitializedValidator, InitializedValidators,
    Keypair, KeystoreError, LockfileAction, PublicKey, SecretKey, SigningDefinition, UpdateAction, ValidatorDefinition,
    ValidatorDefinitions, ValidatorError,
};
use std::io;
use std::path::PathBuf;

fn pk(b: u8) -> PublicKey {
    PublicKey([b; 48])
}

fn keypair(b: u8) -> Keypair {
    Keypair { pk: pk(b), sk: SecretKey([b; 32]) }
}

fn def(b: u8, enabled: bool) -> ValidatorDefinition {
    ValidatorDefinition {
        enabled,
        voting_public_key: pk(b),
        signing_definition: SigningDefinition::LocalKeystore {
            voting_keystore_path: PathBuf::from(format!("/keys/{}/voting-keystore.json", b)),
            voting_keystore_password_path: PathBuf::from(format!("/secrets/{}", b)),
        },
    }
}

fn keystore_path(d: &ValidatorDefinition) -> PathBuf {
    match &d.signing_definition {
        SigningDefinition::LocalKeystore { voting_keystore_path, .. } => voting_keystore_path.clone(),
    }
}

/// Initializes with the keypair whose byte is given, or fails for the bytes in `failing`.
fn initialize(d: &ValidatorDefinition, failing: &[u8]) -> Result<InitializedValidator, ValidatorError> {
    let b = d.voting_public_key.0[0];
    if failing.contains(&b) {
        return Err(ValidatorError::BadVotingKeystorePath(keystore_path(d)));
    }
    let path = keystore_path(d);
    let lock = path.with_file_name("voting-keystore.json.lock");
    InitializedValidator::from_definition(d, path, lock, keypair(b))
}

/// Runs a whole update and returns the errors of failed initializations.
fn run_update(set: &mut InitializedValidators, failing: &[u8]) -> (Vec<ValidatorError>, Vec<UpdateAction>) {
    let mut errors = vec![];
    let mut actions = vec![];
    loop {
        let action = set.update_step();
        match action {
            UpdateAction::Initialize { index } => {
                let result = initialize(&set.definitions().as_slice()[index], failing);
                if let Some(e) = set.complete_initialization(result) {
                    errors.push(e);
                }
                actions.push(UpdateAction::Initialize { index });
            },
            UpdateAction::Finished => break,
            other => actions.push(other),
        }
    }
    (errors, actions)
}

fn set_of(defs: Vec<ValidatorDefinition>, respect: bool) -> InitializedValidators {
    InitializedValidators::from_definitions(ValidatorDefinitions(defs), PathBuf::from("/validators"), respect)
}

#[test]
fn initializes_enabled_definitions() {
    let mut set = set_of(vec![def(1, true), def(2, false), def(3, true)], true);
    assert_eq!(set.num_enabled(), 0);
    let (errors, _) = run_update(&mut set, &[]);
    assert!(errors.is_empty());
    assert_eq!(set.num_enabled(), 2);
    assert_eq!(set.num_total(), 3);
    assert_eq!(set.iter_voting_pubkeys(), vec![pk(1), pk(3)]);
    assert_eq!(set.voting_keypair(&pk(1)).unwrap().pk, pk(1));
    assert!(set.voting_keypair(&pk(2)).is_none());
    assert!(set.voting_keypair(&pk(9)).is_none());
    assert!(set.respect_lockfiles());
    assert_eq!(set.validators_dir(), &PathBuf::from("/validators"));
}

#[test]
fn second_definition_with_same_key_is_ignored() {
    let mut set = set_of(vec![def(1, true), def(1, true)], true);
    let (errors, actions) = run_update(&mut set, &[]);
    assert!(errors.is_empty());
    assert_eq!(set.num_enabled(), 1);
    assert!(matches!(actions[0], UpdateAction::Initialize { index: 0 }));
    assert!(matches!(actions[1], UpdateAction::Skipped { index: 1 }));
}

#[test]
fn failed_initialization_is_reported_and_update_goes_on() {
    let mut set = set_of(vec![def(1, true), def(2, true), def(3, true)], true);
    let (errors, _) = run_update(&mut set, &[2]);
    assert_eq!(errors.len(), 1);
    assert!(matches!(errors[0], ValidatorError::BadVotingKeystorePath(_)));
    assert_eq!(set.iter_voting_pubkeys(), vec![pk(1), pk(3)]);
}

#[test]
fn disabling_removes_and_enabling_adds() {
    let mut set = set_of(vec![def(1, true), def(2, true)], false);
    run_update(&mut set, &[]);
    assert_eq!(set.num_enabled(), 2);

    let removed = set.set_validator_status(&pk(1), false);
    assert_eq!(*removed.unwrap().voting_public_key(), pk(1));
    assert!(!set.definitions().as_slice()[0].enabled);
    assert_eq!(set.iter_voting_pubkeys(), vec![pk(2)]);
    assert!(set.voting_keypair(&pk(1)).is_none());
    assert_eq!(set.num_enabled(), 1);
    let (_, actions) = run_update(&mut set, &[]);
    assert!(matches!(actions[0], UpdateAction::Disabled { index: 0 }));
    assert_eq!(set.iter_voting_pubkeys(), vec![pk(2)]);

    assert!(set.set_validator_status(&pk(1), true).is_none());
    assert!(set.voting_keypair(&pk(1)).is_none());
    run_update(&mut set, &[]);
    assert_eq!(set.num_enabled(), 2);
    assert_eq!(set.voting_keypair(&pk(1)).unwrap().sk.0, [1; 32]);
}

#[test]
fn status_of_unknown_key_changes_nothing() {
    let mut set = set_of(vec![def(1, true)], true);
    run_update(&mut set, &[]);
    assert!(set.set_validator_status(&pk(7), false).is_none());
    assert!(set.definitions().as_slice()[0].enabled);
    assert_eq!(set.num_enabled(), 1);
    run_update(&mut set, &[]);
    assert_eq!(set.num_enabled(), 1);
}

#[test]
fn status_changes_only_the_first_matching_definition() {
    let mut set = set_of(vec![def(1, true), def(1, true)], true);
    assert!(set.set_validator_status(&pk(1), false).is_none());
    assert!(!set.definitions().as_slice()[0].enabled);
    assert!(set.definitions().as_slice()[1].enabled);
    let (_, actions) = run_update(&mut set, &[]);
    assert!(matches!(actions[0], UpdateAction::Disabled { index: 0 }));
    assert!(matches!(actions[1], UpdateAction::Skipped { index: 1 }));
    assert_eq!(set.num_enabled(), 0);
}

#[test]
fn first_definition_with_a_key_decides() {
    let mut set = set_of(vec![def(1, true), def(1, false)], true);
    let (_, actions) = run_update(&mut set, &[]);
    assert_eq!(set.num_enabled(), 1);
    assert!(matches!(actions[1], UpdateAction::Skipped { index: 1 }));
    let mut set = set_of(vec![def(1, false), def(1, true)], true);
    run_update(&mut set, &[]);
    assert_eq!(set.num_enabled(), 0);
    assert!(set.voting_keypair(&pk(1)).is_none());
}

#[test]
fn disabling_a_running_validator_releases_it_at_once() {
    let mut set = set_of(vec![def(1, true), def(2, false), def(3, true)], true);
    run_update(&mut set, &[]);
    let removed = set.set_validator_status(&pk(3), false).unwrap();
    assert_eq!(removed.voting_keystore_lockfile_path(), &PathBuf::from("/keys/3/voting-keystore.json.lock"));
    assert_eq!(set.iter_voting_pubkeys(), vec![pk(1)]);
    assert!(set.set_validator_status(&pk(3), false).is_none());
    assert_eq!(set.num_enabled(), 1);
    assert_eq!(set.num_total(), 3);
}

#[test]
fn from_definition_refuses_disabled() {
    let d = def(1, false);
    assert!(matches!(
        InitializedValidator::check_enabled(&d),
        Err(ValidatorError::UnableToInitializeDisabledValidator)
    ));
    assert!(matches!(
        InitializedValidator::from_definition(&d, PathBuf::from("/k"), PathBuf::from("/k.lock"), keypair(1)),
        Err(ValidatorError::UnableToInitializeDisabledValidator)
    ));
    assert!(InitializedValidator::check_enabled(&def(1, true)).is_ok());
}

#[test]
fn from_definition_refuses_other_keypair() {
    let d = def(1, true);
    match InitializedValidator::from_definition(&d, PathBuf::from("/k"), PathBuf::from("/k.lock"), keypair(2)) {
        Err(ValidatorError::VotingPublicKeyMismatch { definition, keystore }) => {
            assert_eq!(*definition, pk(1));
            assert_eq!(*keystore, pk(2));
        },
        _ => panic!("mismatch not detected"),
    }
    assert!(InitializedValidator::check_keypair(&d, &keypair(2)).is_err());
    assert!(InitializedValidator::check_keypair(&d, &keypair(1)).is_ok());
}

#[test]
fn from_definition_keeps_paths_and_keys() {
    let d = def(4, true);
    let v = InitializedValidator::from_definition(&d, PathBuf::from("/k"), PathBuf::from("/k.lock"), keypair(4)).unwrap();
    assert_eq!(*v.voting_public_key(), pk(4));
    assert_eq!(v.voting_keypair().sk.0, [4; 32]);
    assert_eq!(v.voting_keystore_path(), &PathBuf::from("/k"));
    assert_eq!(v.voting_keystore_lockfile_path(), &PathBuf::from("/k.lock"));
}

#[test]
fn lockfile_decisions() {
    assert_eq!(lockfile_action(true, true), LockfileAction::Refuse);
    assert_eq!(lockfile_action(true, false), LockfileAction::Ignore);
    assert_eq!(lockfile_action(false, true), LockfileAction::Create);
    assert_eq!(lockfile_action(false, false), LockfileAction::Create);
}

fn step(d: &ValidatorDefinition, respect: bool, state: InitState, event: InitEvent) -> (InitState, InitAction) {
    InitializedValidator::initialization_step(d, respect, state, event)
}

/// Runs an initialization with the given outcomes of the filesystem steps, returning the actions
/// asked for (but the last) and the outcome.
fn run_init(
    d: &ValidatorDefinition,
    respect: bool,
    keypair_bytes: u8,
    lockfile_exists: bool,
    fail: &str,
) -> (Vec<String>, Result<InitializedValidator, ValidatorError>) {
    let mut state = InitState::Start;
    let mut event = InitEvent::Started;
    let mut asked = vec![];
    loop {
        let (next, action) = step(d, respect, state, event);
        state = next;
        event = match action {
            InitAction::OpenKeystore(p) => {
                asked.push(format!("open {}", p.display()));
                InitEvent::KeystoreOpened(if fail == "open" { Err(io::Error::new(io::ErrorKind::NotFound, "x")) } else { Ok(()) })
            }
            InitAction::ParseKeystore => {
                asked.push("parse".to_string());
                InitEvent::KeystoreParsed(if fail == "parse" { Err(KeystoreError { message: "bad".to_string() }) } else { Ok(()) })
            }
            InitAction::ReadPassword(p) => {
                asked.push(format!("password {}", p.display()));
                InitEvent::PasswordRead(if fail == "password" { Err(io::Error::new(io::ErrorKind::NotFound, "x")) } else { Ok(()) })
            }
            InitAction::DecryptKeypair => {
                asked.push("decrypt".to_string());
                InitEvent::KeypairDecrypted(if fail == "decrypt" {
                    Err(KeystoreError { message: "wrong password".to_string() })
                } else {
                    Ok(keypair(keypair_bytes))
                })
            }
            InitAction::ProbeLockfile(p) => {
                asked.push(format!("probe {}", p.display()));
                InitEvent::LockfileProbed { exists: lockfile_exists }
            }
            InitAction::CreateLockfile(p) => {
                asked.push(format!("create {}", p.display()));
                InitEvent::LockfileCreated(if fail == "create" { Err(io::Error::new(io::ErrorKind::AlreadyExists, "x")) } else { Ok(()) })
            }
            InitAction::WarnLockfileIgnored(p) => {
                asked.push(format!("warn {}", p.display()));
                InitEvent::Warned
            }
            InitAction::Done(result) => return (asked, result),
        };
    }
}

#[test]
fn lockfile_is_named_after_the_keystore_file() {
    assert_eq!(lockfile_path(&PathBuf::from("/v/ks.json")).unwrap(), PathBuf::from("/v/ks.json.lock"));
    assert_eq!(lockfile_path(&PathBuf::from("ks")).unwrap(), PathBuf::from("ks.lock"));
    assert!(matches!(lockfile_path(&PathBuf::from("/v/..")), Err(ValidatorError::BadVotingKeystorePath(p)) if p == PathBuf::from("/v/..")));
    assert!(matches!(lockfile_path(&PathBuf::from("/")), Err(ValidatorError::BadVotingKeystorePath(_))));
}

#[test]
fn initialization_creates_the_lockfile_on_success() {
    let d = def(4, true);
    let (asked, result) = run_init(&d, true, 4, false, "");
    assert_eq!(
        asked,
        vec![
            "open /keys/4/voting-keystore.json",
            "parse",
            "password /secrets/4",
            "decrypt",
            "probe /keys/4/voting-keystore.json.lock",
            "create /keys/4/voting-keystore.json.lock",
        ]
    );
    let v = result.unwrap();
    assert_eq!(*v.voting_public_key(), pk(4));
    assert_eq!(v.voting_keystore_path(), &PathBuf::from("/keys/4/voting-keystore.json"));
    assert_eq!(v.voting_keystore_lockfile_path(), &PathBuf::from("/keys/4/voting-keystore.json.lock"));
}

#[test]
fn existing_lockfile_refuses_when_respected() {
    let d = def(4, true);
    let (asked, result) = run_init(&d, true, 4, true, "");
    assert_eq!(asked.last().unwrap(), "probe /keys/4/voting-keystore.json.lock");
    assert!(matches!(result, Err(ValidatorError::LockfileExists(p)) if p == PathBuf::from("/keys/4/voting-keystore.json.lock")));
}

#[test]
fn existing_lockfile_is_warned_about_when_not_respected() {
    let d = def(4, true);
    let (asked, result) = run_init(&d, false, 4, true, "");
    assert_eq!(asked.last().unwrap(), "warn /keys/4/voting-keystore.json.lock");
    assert!(!asked.iter().any(|a| a.starts_with("create")));
    assert_eq!(result.unwrap().voting_keystore_lockfile_path(), &PathBuf::from("/keys/4/voting-keystore.json.lock"));
}

#[test]
fn first_failing_keystore_step_decides() {
    let d = def(4, true);
    let (asked, result) = run_init(&d, true, 4, false, "open");
    assert_eq!(asked.len(), 1);
    assert!(matches!(result, Err(ValidatorError::UnableToOpenVotingKeystore(_))));
    let (asked, result) = run_init(&d, true, 4, false, "parse");
    assert_eq!(asked.len(), 2);
    assert!(matches!(result, Err(ValidatorError::UnableToParseVotingKeystore(_))));
    let (asked, result) = run_init(&d, true, 4, false, "password");
    assert_eq!(asked.len(), 3);
    assert!(matches!(result, Err(ValidatorError::UnableToReadVotingKeystorePassword(_))));
    let (asked, result) = run_init(&d, true, 4, false, "decrypt");
    assert_eq!(asked.len(), 4);
    assert!(matches!(result, Err(ValidatorError::UnableToDecryptKeystore(_))));
}

#[test]
fn failures_create_no_lockfile() {
    let d = def(4, true);
    let (asked, result) = run_init(&d, true, 5, false, "");
    assert!(matches!(result, Err(ValidatorError::VotingPublicKeyMismatch { .. })));
    assert!(!asked.iter().any(|a| a.starts_with("create") || a.starts_with("probe")));
    let (asked, result) = run_init(&def(4, false), true, 4, false, "");
    assert!(asked.is_empty());
    assert!(matches!(result, Err(ValidatorError::UnableToInitializeDisabledValidator)));
    let (_, result) = run_init(&d, true, 4, false, "create");
    assert!(matches!(result, Err(ValidatorError::UnableToCreateLockfile(_))));
}

#[test]
fn second_definition_on_a_locked_keystore_is_refused() {
    let first = def(4, true);
    let (_, result) = run_init(&first, true, 4, false, "");
    let held = result.unwrap();
    let second = def(4, true);
    let (asked, result) = run_init(&second, true, 4, true, "");
    assert_eq!(asked.last().unwrap(), &format!("probe {}", held.voting_keystore_lockfile_path().display()));
    assert!(matches!(result, Err(ValidatorError::LockfileExists(p)) if &p == held.voting_keystore_lockfile_path()));
}
