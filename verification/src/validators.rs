//! The validators that this validator client manages: their definitions, which of them are
//! initialized (ready to sign), and how the set follows the definitions.

use vstd::prelude::*;

verus! {

broadcast use vstd::array::group_array_axioms;

// ---------------------------------------------------------------------------------------------
// Outside types, carried through but not read

#[verifier::external_type_specification]
#[verifier::external_body]
pub struct ExPathBuf(std::path::PathBuf);

#[verifier::external_type_specification]
#[verifier::external_body]
pub struct ExIoError(std::io::Error);

// ---------------------------------------------------------------------------------------------
// Keys and definitions

/// A validator's BLS voting public key, by its 48 compressed bytes.
#[derive(Clone, Copy, Debug, PartialEq, Eq, Hash)]
pub struct PublicKey(pub [u8; 48]);

/// A BLS secret key, by its 32 bytes.
#[derive(Clone, Copy)]
pub struct SecretKey(pub [u8; 32]);

/// A voting keypair, as decrypted from a keystore.
#[derive(Clone, Copy)]
pub struct Keypair {
    pub pk: PublicKey,
    pub sk: SecretKey,
}

/// How a validator signs.
pub enum SigningDefinition {
    /// With an EIP-2335 keystore on the local filesystem, decrypted with the password in a file.
    LocalKeystore { voting_keystore_path: std::path::PathBuf, voting_keystore_password_path: std::path::PathBuf },
}

/// A validator as the definitions file lists it.
pub struct ValidatorDefinition {
    pub enabled: bool,
    pub voting_public_key: PublicKey,
    pub signing_definition: SigningDefinition,
}

/// The list of validator definitions, in file order.
pub struct ValidatorDefinitions(pub Vec<ValidatorDefinition>);

impl ValidatorDefinitions {
    pub open spec fn view(&self) -> Seq<ValidatorDefinition> {
        self.0@
    }

    /// The definitions in order.
    pub fn as_slice(&self) -> (r: &[ValidatorDefinition])
        ensures
            r@ == self.view(),
    {
        self.0.as_slice()
    }
}

/// Whether two public keys are the same.
pub fn public_key_eq(a: &PublicKey, b: &PublicKey) -> (r: bool)
    ensures
        r == (*a == *b),
{
    let mut i: usize = 0;
    while i < 48
        invariant
            i <= 48,
            forall|j: int| 0 <= j < i ==> a.0@[j] == b.0@[j],
        decreases 48 - i,
    {
        if a.0[i] != b.0[i] {
            assert(a.0@[i as int] != b.0@[i as int]);
            return false;
        }
        i = i + 1;
    }
    assert(a.0 =~= b.0);
    true
}

// ---------------------------------------------------------------------------------------------
// Errors

/// What went wrong while reading or decrypting a keystore.
#[derive(Debug)]
pub struct KeystoreError {
    pub message: String,
}

/// What went wrong while saving the definitions file.
#[derive(Debug)]
pub struct DefinitionsError {
    pub message: String,
}

/// Why a validator could not be initialized, or the definitions not saved.
#[derive(Debug)]
pub enum ValidatorError {
    /// Refused to open a validator with an existing lockfile, since that validator may be in
    /// use by another process.
    LockfileExists(std::path::PathBuf),
    /// There was a filesystem error when creating the lockfile.
    UnableToCreateLockfile(std::io::Error),
    /// The voting public key in the definition did not match the one in the keystore.
    VotingPublicKeyMismatch { definition: Box<PublicKey>, keystore: Box<PublicKey> },
    /// There was a filesystem error when opening the keystore.
    UnableToOpenVotingKeystore(std::io::Error),
    /// The keystore path is not as expected: it should name a file.
    BadVotingKeystorePath(std::path::PathBuf),
    /// The keystore could not be parsed.
    UnableToParseVotingKeystore(KeystoreError),
    /// The keystore could not be decrypted; the password might be wrong.
    UnableToDecryptKeystore(KeystoreError),
    /// There was a filesystem error when reading the keystore password.
    UnableToReadVotingKeystorePassword(std::io::Error),
    /// The definitions file could not be saved.
    UnableToSaveDefinitions(DefinitionsError),
    /// A disabled validator definition cannot be initialized.
    UnableToInitializeDisabledValidator,
}

// ---------------------------------------------------------------------------------------------
// One initialized validator

/// How an initialized validator signs.
pub enum SigningMethod {
    /// With a keystore on the local filesystem, decrypted, and locked by a lockfile.
    LocalKeystore {
        voting_keystore_path: std::path::PathBuf,
        voting_keystore_lockfile_path: std::path::PathBuf,
        voting_keypair: Keypair,
    },
}

/// A validator that is ready to sign messages.
pub struct InitializedValidator {
    signing_method: SigningMethod,
}

/// What initializing `def` with the keypair decrypted from its keystore comes to, leaving out
/// the filesystem: a disabled definition is refused first, then a keypair whose public key is
/// not the definition's.
pub open spec fn definition_check_spec(def: ValidatorDefinition, keypair: Keypair) -> Result<(), ValidatorError> {
    if !def.enabled {
        Err(ValidatorError::UnableToInitializeDisabledValidator)
    } else if keypair.pk != def.voting_public_key {
        Err(
            ValidatorError::VotingPublicKeyMismatch {
                definition: Box::new(def.voting_public_key),
                keystore: Box::new(keypair.pk),
            },
        )
    } else {
        Ok(())
    }
}

/// What to do about the lockfile of a keystore.
#[derive(Clone, Copy, Debug, PartialEq, Eq)]
pub enum LockfileAction {
    /// Another process may use the keystore: refuse with `LockfileExists`.
    Refuse,
    /// A lockfile exists but lockfiles are not respected: warn and go on.
    Ignore,
    /// Create the lockfile, then go on.
    Create,
}

/// Decides about a keystore's lockfile: an existing lockfile refuses the validator when lockfiles
/// are respected and is ignored otherwise; a missing one is created.
pub fn lockfile_action(lockfile_exists: bool, respect_lockfiles: bool) -> (r: LockfileAction)
    ensures
        r == (if lockfile_exists {
            if respect_lockfiles { LockfileAction::Refuse } else { LockfileAction::Ignore }
        } else {
            LockfileAction::Create
        }),
{
    if lockfile_exists {
        if respect_lockfiles {
            LockfileAction::Refuse
        } else {
            LockfileAction::Ignore
        }
    } else {
        LockfileAction::Create
    }
}

impl InitializedValidator {
    /// The voting keypair.
    pub closed spec fn keypair_spec(&self) -> Keypair {
        match self.signing_method {
            SigningMethod::LocalKeystore { voting_keypair, .. } => voting_keypair,
        }
    }

    /// The path of the keystore.
    pub closed spec fn keystore_path_spec(&self) -> std::path::PathBuf {
        match self.signing_method {
            SigningMethod::LocalKeystore { voting_keystore_path, .. } => voting_keystore_path,
        }
    }

    /// The path of the lockfile.
    pub closed spec fn lockfile_path_spec(&self) -> std::path::PathBuf {
        match self.signing_method {
            SigningMethod::LocalKeystore { voting_keystore_lockfile_path, .. } => voting_keystore_lockfile_path,
        }
    }

    /// The voting public key.
    pub open spec fn public_key_spec(&self) -> PublicKey {
        self.keypair_spec().pk
    }

    /// Refuses a disabled definition; the rest of initialization needs the filesystem.
    pub fn check_enabled(def: &ValidatorDefinition) -> (r: Result<(), ValidatorError>)
        ensures
            r is Err <==> !def.enabled,
            r is Err ==> r == Err::<(), ValidatorError>(ValidatorError::UnableToInitializeDisabledValidator),
    {
        if !def.enabled {
            Err(ValidatorError::UnableToInitializeDisabledValidator)
        } else {
            Ok(())
        }
    }

    /// Refuses a disabled definition, then a keypair whose public key is not the definition's.
    pub fn check_keypair(def: &ValidatorDefinition, keypair: &Keypair) -> (r: Result<(), ValidatorError>)
        ensures
            r == definition_check_spec(*def, *keypair),
    {
        if !def.enabled {
            return Err(ValidatorError::UnableToInitializeDisabledValidator);
        }
        if !public_key_eq(&keypair.pk, &def.voting_public_key) {
            return Err(
                ValidatorError::VotingPublicKeyMismatch {
                    definition: Box::new(def.voting_public_key),
                    keystore: Box::new(keypair.pk),
                },
            );
        }
        Ok(())
    }

    /// The validator of `def`, whose keystore at `voting_keystore_path` decrypted to
    /// `voting_keypair` and is locked by `voting_keystore_lockfile_path`. A disabled definition,
    /// or a keypair that is not the definition's, is refused.
    pub fn from_definition(
        def: &ValidatorDefinition,
        voting_keystore_path: std::path::PathBuf,
        voting_keystore_lockfile_path: std::path::PathBuf,
        voting_keypair: Keypair,
    ) -> (r: Result<Self, ValidatorError>)
        ensures
            match definition_check_spec(*def, voting_keypair) {
                Ok(()) => r matches Ok(v) && v.keypair_spec() == voting_keypair
                    && v.public_key_spec() == def.voting_public_key
                    && v.keystore_path_spec() == voting_keystore_path
                    && v.lockfile_path_spec() == voting_keystore_lockfile_path,
                Err(e) => r matches Err(e2) && e2 == e,
            },
    {
        match Self::check_keypair(def, &voting_keypair) {
            Err(e) => Err(e),
            Ok(()) => Ok(
                InitializedValidator {
                    signing_method: SigningMethod::LocalKeystore {
                        voting_keystore_path,
                        voting_keystore_lockfile_path,
                        voting_keypair,
                    },
                },
            ),
        }
    }

    /// Returns the voting public key for this validator.
    pub fn voting_public_key(&self) -> (r: &PublicKey)
        ensures
            *r == self.public_key_spec(),
    {
        match &self.signing_method {
            SigningMethod::LocalKeystore { voting_keypair, .. } => &voting_keypair.pk,
        }
    }

    /// Returns the voting keypair for this validator.
    pub fn voting_keypair(&self) -> (r: &Keypair)
        ensures
            *r == self.keypair_spec(),
    {
        match &self.signing_method {
            SigningMethod::LocalKeystore { voting_keypair, .. } => voting_keypair,
        }
    }

    /// The path of the lockfile that this validator holds.
    pub fn voting_keystore_lockfile_path(&self) -> (r: &std::path::PathBuf)
        ensures
            *r == self.lockfile_path_spec(),
    {
        match &self.signing_method {
            SigningMethod::LocalKeystore { voting_keystore_lockfile_path, .. } => voting_keystore_lockfile_path,
        }
    }

    /// The path of the keystore that this validator was decrypted from.
    pub fn voting_keystore_path(&self) -> (r: &std::path::PathBuf)
        ensures
            *r == self.keystore_path_spec(),
    {
        match &self.signing_method {
            SigningMethod::LocalKeystore { voting_keystore_path, .. } => voting_keystore_path,
        }
    }
}

// ---------------------------------------------------------------------------------------------
// Paths of keystores and lockfiles

/// A path's final component as text, as `Path::file_name` and `OsStr::to_str` give it: `None`
/// when the path has no final component (it is a root, is empty or ends in `..`) or the
/// component is not UTF-8.
pub uninterp spec fn path_file_name(path: std::path::PathBuf) -> Option<Seq<char>>;

/// The path with its final component replaced by `name`, as `Path::with_file_name` gives it.
pub uninterp spec fn path_with_file_name(path: std::path::PathBuf, name: Seq<char>) -> std::path::PathBuf;

/// Calls `Path::file_name` and `OsStr::to_str`: the path's final component as text, if it has
/// one in UTF-8.
#[verifier::external_body]
fn file_name_text(path: &std::path::PathBuf) -> (r: Option<String>)
    ensures
        match r {
            Some(name) => path_file_name(*path) == Some(name@),
            None => path_file_name(*path) is None,
        },
{
    match path.file_name() {
        Some(name) => match name.to_str() {
            Some(text) => Some(text.to_string()),
            None => None,
        },
        None => None,
    }
}

/// Calls `Path::with_file_name`.
#[verifier::external_body]
fn with_file_name(path: &std::path::PathBuf, name: &str) -> (r: std::path::PathBuf)
    ensures
        r == path_with_file_name(*path, name@),
{
    path.with_file_name(name)
}

/// Calls `PathBuf::clone`; the clone is the same path.
#[verifier::external_body]
fn path_clone(path: &std::path::PathBuf) -> (r: std::path::PathBuf)
    ensures
        r == *path,
{
    path.clone()
}

/// The lockfile of the keystore at `keystore`: the same path with `.lock` after the file name.
/// A keystore path without a file name in UTF-8 is refused.
pub open spec fn lockfile_path_of(keystore: std::path::PathBuf) -> Result<std::path::PathBuf, ValidatorError> {
    match path_file_name(keystore) {
        Some(name) => Ok(path_with_file_name(keystore, name + ".lock"@)),
        None => Err(ValidatorError::BadVotingKeystorePath(keystore)),
    }
}

/// The lockfile path of the keystore at `voting_keystore_path`: its file name with a `.lock`
/// suffix, in the same directory.
pub fn lockfile_path(voting_keystore_path: &std::path::PathBuf) -> (r: Result<std::path::PathBuf, ValidatorError>)
    ensures
        r == lockfile_path_of(*voting_keystore_path),
{
    match file_name_text(voting_keystore_path) {
        Some(name) => {
            let lock_name = name.concat(".lock");
            Ok(with_file_name(voting_keystore_path, lock_name.as_str()))
        },
        None => Err(ValidatorError::BadVotingKeystorePath(path_clone(voting_keystore_path))),
    }
}

/// The keystore path of a definition.
pub open spec fn keystore_path_of(def: ValidatorDefinition) -> std::path::PathBuf {
    match def.signing_definition {
        SigningDefinition::LocalKeystore { voting_keystore_path, .. } => voting_keystore_path,
    }
}

/// The keystore password path of a definition.
pub open spec fn password_path_of(def: ValidatorDefinition) -> std::path::PathBuf {
    match def.signing_definition {
        SigningDefinition::LocalKeystore { voting_keystore_password_path, .. } => voting_keystore_password_path,
    }
}

// ---------------------------------------------------------------------------------------------
// Initializing a validator, step by step

/// Where the initialization of a validator from its definition stands.
pub enum InitState {
    /// Nothing has been done.
    Start,
    /// The keystore file is being opened.
    OpeningKeystore,
    /// The opened keystore is being parsed.
    ParsingKeystore,
    /// The password file is being read.
    ReadingPassword,
    /// The keystore is being decrypted with the password.
    Decrypting,
    /// The keypair is the definition's; whether its lockfile exists is being found out.
    ProbingLockfile { keypair: Keypair, lockfile: std::path::PathBuf },
    /// The lockfile is being created.
    CreatingLockfile { keypair: Keypair, lockfile: std::path::PathBuf },
    /// A warning that the existing lockfile is ignored is being logged.
    WarningLockfile { keypair: Keypair, lockfile: std::path::PathBuf },
    /// The outcome has been handed out.
    Finished,
}

/// What happened on the filesystem since the last step.
pub enum InitEvent {
    /// The initialization begins.
    Started,
    /// The keystore file was opened, or could not be.
    KeystoreOpened(Result<(), std::io::Error>),
    /// The keystore was parsed, or could not be.
    KeystoreParsed(Result<(), KeystoreError>),
    /// The password file was read, or could not be.
    PasswordRead(Result<(), std::io::Error>),
    /// The keystore decrypted to a keypair, or could not be decrypted.
    KeypairDecrypted(Result<Keypair, KeystoreError>),
    /// Whether the lockfile exists.
    LockfileProbed { exists: bool },
    /// The lockfile was created, or could not be.
    LockfileCreated(Result<(), std::io::Error>),
    /// The warning was logged.
    Warned,
}

/// What to do next.
pub enum InitAction {
    /// Open the keystore file at this path.
    OpenKeystore(std::path::PathBuf),
    /// Parse the opened keystore.
    ParseKeystore,
    /// Read the password in the file at this path.
    ReadPassword(std::path::PathBuf),
    /// Decrypt the keystore with the password.
    DecryptKeypair,
    /// Find out whether a file exists at this lockfile path.
    ProbeLockfile(std::path::PathBuf),
    /// Create a new, empty file at this lockfile path.
    CreateLockfile(std::path::PathBuf),
    /// Log a warning that the existing lockfile at this path is ignored.
    WarnLockfileIgnored(std::path::PathBuf),
    /// The outcome of the initialization.
    Done(Result<InitializedValidator, ValidatorError>),
}

/// The event that answers the action that led to `state`.
pub open spec fn event_fits(state: InitState, event: InitEvent) -> bool {
    match state {
        InitState::Start => event is Started,
        InitState::OpeningKeystore => event is KeystoreOpened,
        InitState::ParsingKeystore => event is KeystoreParsed,
        InitState::ReadingPassword => event is PasswordRead,
        InitState::Decrypting => event is KeypairDecrypted,
        InitState::ProbingLockfile { .. } => event is LockfileProbed,
        InitState::CreatingLockfile { .. } => event is LockfileCreated,
        InitState::WarningLockfile { .. } => event is Warned,
        InitState::Finished => false,
    }
}

/// The validator that signs with `keypair` from the keystore at `keystore`, locked by `lockfile`.
pub closed spec fn initialized_validator_spec(
    keystore: std::path::PathBuf,
    lockfile: std::path::PathBuf,
    keypair: Keypair,
) -> InitializedValidator {
    InitializedValidator {
        signing_method: SigningMethod::LocalKeystore {
            voting_keystore_path: keystore,
            voting_keystore_lockfile_path: lockfile,
            voting_keypair: keypair,
        },
    }
}

/// What the validator of `initialized_validator_spec` holds.
pub proof fn lemma_initialized_validator_spec(keystore: std::path::PathBuf, lockfile: std::path::PathBuf, keypair: Keypair)
    ensures
        initialized_validator_spec(keystore, lockfile, keypair).keystore_path_spec() == keystore,
        initialized_validator_spec(keystore, lockfile, keypair).lockfile_path_spec() == lockfile,
        initialized_validator_spec(keystore, lockfile, keypair).keypair_spec() == keypair,
{
}

/// One step of initializing the validator of `def`: a disabled definition is refused; then the
/// keystore is opened, parsed, its password read and the keystore decrypted, the first failure
/// deciding the error; a keypair that is not the definition's is refused; then the lockfile
/// (the keystore's file name with `.lock`) is found: an existing one refuses the validator when
/// lockfiles are respected and is otherwise warned about and left alone, a missing one is
/// created; and the validator holds the keystore, the lockfile and the keypair.
pub open spec fn initialization_step_spec(
    def: ValidatorDefinition,
    respect_lockfiles: bool,
    state: InitState,
    event: InitEvent,
) -> (InitState, InitAction) {
    let keystore = keystore_path_of(def);
    match state {
        InitState::Start => if !def.enabled {
            (InitState::Finished, InitAction::Done(Err(ValidatorError::UnableToInitializeDisabledValidator)))
        } else {
            (InitState::OpeningKeystore, InitAction::OpenKeystore(keystore))
        },
        InitState::OpeningKeystore => match event {
            InitEvent::KeystoreOpened(Err(e)) => (
                InitState::Finished,
                InitAction::Done(Err(ValidatorError::UnableToOpenVotingKeystore(e))),
            ),
            _ => (InitState::ParsingKeystore, InitAction::ParseKeystore),
        },
        InitState::ParsingKeystore => match event {
            InitEvent::KeystoreParsed(Err(e)) => (
                InitState::Finished,
                InitAction::Done(Err(ValidatorError::UnableToParseVotingKeystore(e))),
            ),
            _ => (InitState::ReadingPassword, InitAction::ReadPassword(password_path_of(def))),
        },
        InitState::ReadingPassword => match event {
            InitEvent::PasswordRead(Err(e)) => (
                InitState::Finished,
                InitAction::Done(Err(ValidatorError::UnableToReadVotingKeystorePassword(e))),
            ),
            _ => (InitState::Decrypting, InitAction::DecryptKeypair),
        },
        InitState::Decrypting => match event {
            InitEvent::KeypairDecrypted(Ok(keypair)) => if keypair.pk != def.voting_public_key {
                (
                    InitState::Finished,
                    InitAction::Done(
                        Err(
                            ValidatorError::VotingPublicKeyMismatch {
                                definition: Box::new(def.voting_public_key),
                                keystore: Box::new(keypair.pk),
                            },
                        ),
                    ),
                )
            } else {
                match lockfile_path_of(keystore) {
                    Ok(lockfile) => (
                        InitState::ProbingLockfile { keypair, lockfile },
                        InitAction::ProbeLockfile(lockfile),
                    ),
                    Err(e) => (InitState::Finished, InitAction::Done(Err(e))),
                }
            },
            InitEvent::KeypairDecrypted(Err(e)) => (
                InitState::Finished,
                InitAction::Done(Err(ValidatorError::UnableToDecryptKeystore(e))),
            ),
            _ => (InitState::Finished, InitAction::Done(Err(ValidatorError::UnableToInitializeDisabledValidator))),
        },
        InitState::ProbingLockfile { keypair, lockfile } => match event {
            InitEvent::LockfileProbed { exists } => if exists {
                if respect_lockfiles {
                    (InitState::Finished, InitAction::Done(Err(ValidatorError::LockfileExists(lockfile))))
                } else {
                    (InitState::WarningLockfile { keypair, lockfile }, InitAction::WarnLockfileIgnored(lockfile))
                }
            } else {
                (InitState::CreatingLockfile { keypair, lockfile }, InitAction::CreateLockfile(lockfile))
            },
            _ => (InitState::Finished, InitAction::Done(Err(ValidatorError::UnableToInitializeDisabledValidator))),
        },
        InitState::CreatingLockfile { keypair, lockfile } => match event {
            InitEvent::LockfileCreated(Err(e)) => (
                InitState::Finished,
                InitAction::Done(Err(ValidatorError::UnableToCreateLockfile(e))),
            ),
            _ => (
                InitState::Finished,
                InitAction::Done(Ok(initialized_validator_spec(keystore, lockfile, keypair))),
            ),
        },
        InitState::WarningLockfile { keypair, lockfile } => (
            InitState::Finished,
            InitAction::Done(Ok(initialized_validator_spec(keystore, lockfile, keypair))),
        ),
        InitState::Finished => (
            InitState::Finished,
            InitAction::Done(Err(ValidatorError::UnableToInitializeDisabledValidator)),
        ),
    }
}

/// A state holds what the steps for `def` put in it: the definition's keypair and the lockfile
/// of the definition's keystore.
pub open spec fn init_state_consistent(def: ValidatorDefinition, state: InitState) -> bool {
    match state {
        InitState::ProbingLockfile { keypair, lockfile } => keypair.pk == def.voting_public_key
            && lockfile_path_of(keystore_path_of(def)) == Ok::<std::path::PathBuf, ValidatorError>(lockfile),
        InitState::CreatingLockfile { keypair, lockfile } => keypair.pk == def.voting_public_key
            && lockfile_path_of(keystore_path_of(def)) == Ok::<std::path::PathBuf, ValidatorError>(lockfile),
        InitState::WarningLockfile { keypair, lockfile } => keypair.pk == def.voting_public_key
            && lockfile_path_of(keystore_path_of(def)) == Ok::<std::path::PathBuf, ValidatorError>(lockfile),
        _ => true,
    }
}

impl InitializedValidator {
    fn local(keystore: std::path::PathBuf, lockfile: std::path::PathBuf, keypair: Keypair) -> (r: Self)
        ensures
            r == initialized_validator_spec(keystore, lockfile, keypair),
    {
        InitializedValidator {
            signing_method: SigningMethod::LocalKeystore {
                voting_keystore_path: keystore,
                voting_keystore_lockfile_path: lockfile,
                voting_keypair: keypair,
            },
        }
    }

    /// One step of initializing the validator of `def`: from where the initialization stands
    /// and what happened on the filesystem, where it stands next and what to do. Start from
    /// `InitState::Start` with `InitEvent::Started`; the initialization ends with
    /// `InitAction::Done`.
    pub fn initialization_step(
        def: &ValidatorDefinition,
        respect_lockfiles: bool,
        state: InitState,
        event: InitEvent,
    ) -> (r: (InitState, InitAction))
        requires
            event_fits(state, event),
        ensures
            r == initialization_step_spec(*def, respect_lockfiles, state, event),
    {
        let (keystore, password) = match &def.signing_definition {
            SigningDefinition::LocalKeystore { voting_keystore_path, voting_keystore_password_path } => (
                voting_keystore_path,
                voting_keystore_password_path,
            ),
        };
        match state {
            InitState::Start => if !def.enabled {
                (InitState::Finished, InitAction::Done(Err(ValidatorError::UnableToInitializeDisabledValidator)))
            } else {
                (InitState::OpeningKeystore, InitAction::OpenKeystore(path_clone(keystore)))
            },
            InitState::OpeningKeystore => match event {
                InitEvent::KeystoreOpened(Err(e)) => (
                    InitState::Finished,
                    InitAction::Done(Err(ValidatorError::UnableToOpenVotingKeystore(e))),
                ),
                _ => (InitState::ParsingKeystore, InitAction::ParseKeystore),
            },
            InitState::ParsingKeystore => match event {
                InitEvent::KeystoreParsed(Err(e)) => (
                    InitState::Finished,
                    InitAction::Done(Err(ValidatorError::UnableToParseVotingKeystore(e))),
                ),
                _ => (InitState::ReadingPassword, InitAction::ReadPassword(path_clone(password))),
            },
            InitState::ReadingPassword => match event {
                InitEvent::PasswordRead(Err(e)) => (
                    InitState::Finished,
                    InitAction::Done(Err(ValidatorError::UnableToReadVotingKeystorePassword(e))),
                ),
                _ => (InitState::Decrypting, InitAction::DecryptKeypair),
            },
            InitState::Decrypting => match event {
                InitEvent::KeypairDecrypted(Ok(keypair)) => {
                    if !public_key_eq(&keypair.pk, &def.voting_public_key) {
                        return (
                            InitState::Finished,
                            InitAction::Done(
                                Err(
                                    ValidatorError::VotingPublicKeyMismatch {
                                        definition: Box::new(def.voting_public_key),
                                        keystore: Box::new(keypair.pk),
                                    },
                                ),
                            ),
                        );
                    }
                    match lockfile_path(keystore) {
                        Ok(lockfile) => {
                            let probe = path_clone(&lockfile);
                            (InitState::ProbingLockfile { keypair, lockfile }, InitAction::ProbeLockfile(probe))
                        },
                        Err(e) => (InitState::Finished, InitAction::Done(Err(e))),
                    }
                },
                InitEvent::KeypairDecrypted(Err(e)) => (
                    InitState::Finished,
                    InitAction::Done(Err(ValidatorError::UnableToDecryptKeystore(e))),
                ),
                _ => (InitState::Finished, InitAction::Done(Err(ValidatorError::UnableToInitializeDisabledValidator))),
            },
            InitState::ProbingLockfile { keypair, lockfile } => match event {
                InitEvent::LockfileProbed { exists } => match lockfile_action(exists, respect_lockfiles) {
                    LockfileAction::Refuse => (
                        InitState::Finished,
                        InitAction::Done(Err(ValidatorError::LockfileExists(lockfile))),
                    ),
                    LockfileAction::Ignore => {
                        let warned = path_clone(&lockfile);
                        (InitState::WarningLockfile { keypair, lockfile }, InitAction::WarnLockfileIgnored(warned))
                    },
                    LockfileAction::Create => {
                        let created = path_clone(&lockfile);
                        (InitState::CreatingLockfile { keypair, lockfile }, InitAction::CreateLockfile(created))
                    },
                },
                _ => (InitState::Finished, InitAction::Done(Err(ValidatorError::UnableToInitializeDisabledValidator))),
            },
            InitState::CreatingLockfile { keypair, lockfile } => match event {
                InitEvent::LockfileCreated(Err(e)) => (
                    InitState::Finished,
                    InitAction::Done(Err(ValidatorError::UnableToCreateLockfile(e))),
                ),
                _ => (
                    InitState::Finished,
                    InitAction::Done(Ok(InitializedValidator::local(path_clone(keystore), lockfile, keypair))),
                ),
            },
            InitState::WarningLockfile { keypair, lockfile } => (
                InitState::Finished,
                InitAction::Done(Ok(InitializedValidator::local(path_clone(keystore), lockfile, keypair))),
            ),
            InitState::Finished => (
                InitState::Finished,
                InitAction::Done(Err(ValidatorError::UnableToInitializeDisabledValidator)),
            ),
        }
    }
}

// ---------------------------------------------------------------------------------------------
// The set of initialized validators

/// A step of bringing the initialized validators in line with the definitions.
pub enum UpdateAction {
    /// The definition at this index decides for its key, is enabled, and its key is unknown:
    /// initialize it (this needs the filesystem) and report the outcome with
    /// `complete_initialization`.
    Initialize { index: usize },
    /// The definition at this index is ignored: an earlier definition has its key, or its key is
    /// already known.
    Skipped { index: usize },
    /// The definition at this index decides for its key and is disabled: its key has no
    /// validator.
    Disabled { index: usize },
    /// Every definition has been gone through.
    Finished,
}

/// The validators that this client manages, initialized from a list of definitions. For each
/// key, the first definition with that key decides: a later definition with a known key is
/// ignored.
pub struct InitializedValidators {
    /// If `true`, no validator is opened while a lockfile exists; if `false`, an existing
    /// lockfile only raises a warning.
    respect_lockfiles: bool,
    /// The definitions, as stored on disk.
    definitions: ValidatorDefinitions,
    /// The directory that the definitions are saved into.
    validators_dir: std::path::PathBuf,
    /// The initialized (enabled) validators, no two with the same public key.
    validators: Vec<InitializedValidator>,
    /// How far through the definitions the current update has come.
    update_cursor: usize,
    /// Whether the definition at the cursor awaits the outcome of its initialization.
    awaiting_initialization: bool,
    /// The keys whose initialization failed in the current update.
    failed: Ghost<Set<PublicKey>>,
}

/// The definition at `index` with `enabled` set as given.
pub open spec fn with_enabled(def: ValidatorDefinition, enabled: bool) -> ValidatorDefinition {
    ValidatorDefinition { enabled, ..def }
}

/// `i` is the index of the first definition whose public key is `pk`.
pub open spec fn is_first_with_key(defs: Seq<ValidatorDefinition>, pk: PublicKey, i: int) -> bool {
    &&& 0 <= i < defs.len()
    &&& defs[i].voting_public_key == pk
    &&& forall|j: int| 0 <= j < i ==> defs[j].voting_public_key != pk
}

/// The first definition with the key `pk` exists and is enabled.
pub open spec fn first_definition_enabled(defs: Seq<ValidatorDefinition>, pk: PublicKey) -> bool {
    exists|i: int| is_first_with_key(defs, pk, i) && defs[i].enabled
}

/// The keys of the enabled definitions.
pub open spec fn enabled_keys(defs: Seq<ValidatorDefinition>) -> Set<PublicKey> {
    Set::new(|k: PublicKey| exists|i: int| 0 <= i < defs.len() && defs[i].enabled && defs[i].voting_public_key == k)
}

/// The definitions after setting `enabled` on the first one whose public key is `pk`, if any.
pub open spec fn set_first_enabled(
    defs: Seq<ValidatorDefinition>,
    pk: PublicKey,
    enabled: bool,
) -> Seq<ValidatorDefinition> {
    if exists|i: int| is_first_with_key(defs, pk, i) {
        let i = choose|i: int| is_first_with_key(defs, pk, i);
        defs.update(i, with_enabled(defs[i], enabled))
    } else {
        defs
    }
}

/// The public keys of a sequence of validators.
pub open spec fn key_set(vals: Seq<InitializedValidator>) -> Set<PublicKey> {
    Set::new(|k: PublicKey| exists|i: int| 0 <= i < vals.len() && (#[trigger] vals[i]).public_key_spec() == k)
}

/// Every validator's key has an enabled first definition.
pub open spec fn keys_enabled(vals: Seq<InitializedValidator>, defs: Seq<ValidatorDefinition>) -> bool {
    forall|m: int| 0 <= m < vals.len() ==> first_definition_enabled(defs, (#[trigger] vals[m]).public_key_spec())
}

/// Every definition before `cursor` that is enabled and the first with its key has its key among
/// `keys` or among `failed`.
pub open spec fn enabled_done_before(
    defs: Seq<ValidatorDefinition>,
    keys: Set<PublicKey>,
    failed: Set<PublicKey>,
    cursor: int,
) -> bool {
    forall|i: int|
        0 <= i < cursor && defs[i].enabled && #[trigger] is_first_with_key(defs, defs[i].voting_public_key, i)
            ==> keys.contains(defs[i].voting_public_key) || failed.contains(defs[i].voting_public_key)
}

/// No two validators with the same public key.
pub open spec fn distinct_keys(vals: Seq<InitializedValidator>) -> bool {
    forall|i: int, j: int|
        0 <= i < j < vals.len() ==> (#[trigger] vals[i]).public_key_spec() != (#[trigger] vals[j]).public_key_spec()
}

proof fn lemma_first_unique(defs: Seq<ValidatorDefinition>, pk: PublicKey, i: int, j: int)
    requires
        is_first_with_key(defs, pk, i),
        is_first_with_key(defs, pk, j),
    ensures
        i == j,
{
    if i < j {
        assert(defs[i].voting_public_key != pk);
    } else if j < i {
        assert(defs[j].voting_public_key != pk);
    }
}

proof fn lemma_key_set_remove(vals: Seq<InitializedValidator>, i: int)
    requires
        0 <= i < vals.len(),
        distinct_keys(vals),
    ensures
        key_set(vals.remove(i)) =~= key_set(vals).remove(vals[i].public_key_spec()),
{
    let r = vals.remove(i);
    let pk = vals[i].public_key_spec();
    assert forall|k: PublicKey| key_set(r).contains(k) implies key_set(vals).remove(pk).contains(k) by {
        let m = choose|m: int| 0 <= m < r.len() && (#[trigger] r[m]).public_key_spec() == k;
        if m < i {
            assert(r[m] == vals[m]);
        } else {
            assert(r[m] == vals[m + 1]);
        }
    }
    assert forall|k: PublicKey| key_set(vals).remove(pk).contains(k) implies key_set(r).contains(k) by {
        let m = choose|m: int| 0 <= m < vals.len() && (#[trigger] vals[m]).public_key_spec() == k;
        if m < i {
            assert(r[m] == vals[m]);
        } else {
            assert(m != i);
            assert(r[m - 1] == vals[m]);
        }
    }
}

impl InitializedValidators {
    pub closed spec fn definitions_view(&self) -> Seq<ValidatorDefinition> {
        self.definitions.0@
    }

    pub closed spec fn validators_view(&self) -> Seq<InitializedValidator> {
        self.validators@
    }

    pub closed spec fn cursor(&self) -> nat {
        self.update_cursor as nat
    }

    pub closed spec fn awaiting(&self) -> bool {
        self.awaiting_initialization
    }

    /// The keys whose initialization failed in the current update.
    pub closed spec fn failed_keys(&self) -> Set<PublicKey> {
        self.failed@
    }

    pub closed spec fn validators_dir_spec(&self) -> std::path::PathBuf {
        self.validators_dir
    }

    pub closed spec fn respects_lockfiles(&self) -> bool {
        self.respect_lockfiles
    }

    /// The public keys of the initialized validators.
    pub open spec fn keys(&self) -> Set<PublicKey> {
        key_set(self.validators_view())
    }

    /// Validity: the cursor within the definitions; a definition awaiting initialization the
    /// first of its key, enabled, and with an unknown key; no two validators with the same key;
    /// every validator's key with an enabled first definition; and every key whose first
    /// definition lies before the cursor and is enabled known, or failed in this update.
    pub open spec fn wf(&self) -> bool {
        let defs = self.definitions_view();
        let vals = self.validators_view();
        &&& self.cursor() <= defs.len()
        &&& self.awaiting() ==> {
            let c = self.cursor() as int;
            &&& c < defs.len()
            &&& is_first_with_key(defs, defs[c].voting_public_key, c)
            &&& defs[c].enabled
            &&& !self.keys().contains(defs[c].voting_public_key)
        }
        &&& distinct_keys(vals)
        &&& keys_enabled(vals, defs)
        &&& enabled_done_before(defs, self.keys(), self.failed_keys(), self.cursor() as int)
    }

    /// The set for `definitions`, with no validator initialized yet (initializing needs the
    /// filesystem) and an update about to start.
    pub fn from_definitions(
        definitions: ValidatorDefinitions,
        validators_dir: std::path::PathBuf,
        respect_lockfiles: bool,
    ) -> (r: Self)
        ensures
            r.wf(),
            r.definitions_view() == definitions.view(),
            r.validators_view().len() == 0,
            r.failed_keys() == Set::<PublicKey>::empty(),
            r.cursor() == 0,
            !r.awaiting(),
            r.respects_lockfiles() == respect_lockfiles,
            r.validators_dir_spec() == validators_dir,
    {
        InitializedValidators {
            respect_lockfiles,
            definitions,
            validators_dir,
            validators: Vec::new(),
            update_cursor: 0,
            awaiting_initialization: false,
            failed: Ghost(Set::empty()),
        }
    }

    /// The count of enabled validators.
    pub fn num_enabled(&self) -> (r: usize)
        ensures
            r == self.validators_view().len(),
    {
        self.validators.len()
    }

    /// The total count of enabled and disabled validators.
    pub fn num_total(&self) -> (r: usize)
        ensures
            r == self.definitions_view().len(),
    {
        self.definitions.0.len()
    }

    /// The voting public keys of the enabled validators.
    pub fn iter_voting_pubkeys(&self) -> (r: Vec<PublicKey>)
        ensures
            r@ == self.validators_view().map_values(|v: InitializedValidator| v.public_key_spec()),
    {
        let mut r: Vec<PublicKey> = Vec::new();
        let n = self.validators.len();
        for i in 0..n
            invariant
                n == self.validators@.len(),
                r@ == self.validators@.take(i as int).map_values(
                    |v: InitializedValidator| v.public_key_spec(),
                ),
        {
            r.push(*self.validators[i].voting_public_key());
            assert(self.validators@.take(i + 1) =~= self.validators@.take(i as int).push(
                self.validators@[i as int],
            ));
        }
        assert(self.validators@.take(n as int) =~= self.validators@);
        r
    }

    fn find_validator(&self, pk: &PublicKey) -> (r: Option<usize>)
        ensures
            match r {
                Some(i) => i < self.validators@.len() && self.validators@[i as int].public_key_spec() == *pk,
                None => !self.keys().contains(*pk),
            },
    {
        let n = self.validators.len();
        for i in 0..n
            invariant
                n == self.validators@.len(),
                forall|j: int| 0 <= j < i ==> self.validators@[j].public_key_spec() != *pk,
        {
            if public_key_eq(self.validators[i].voting_public_key(), pk) {
                return Some(i);
            }
        }
        None
    }

    /// The voting keypair of the validator with voting public key `pk`, if that validator is
    /// known and enabled.
    pub fn voting_keypair(&self, voting_public_key: &PublicKey) -> (r: Option<&Keypair>)
        ensures
            r is Some <==> self.keys().contains(*voting_public_key),
            r matches Some(kp) ==> kp.pk == *voting_public_key && exists|i: int|
                0 <= i < self.validators_view().len() && #[trigger] self.validators_view()[i].keypair_spec() == *kp,
    {
        match self.find_validator(voting_public_key) {
            Some(i) => {
                let kp = self.validators[i].voting_keypair();
                assert(self.validators_view()[i as int].keypair_spec() == *kp);
                Some(kp)
            },
            None => None,
        }
    }

    /// The initialized validators.
    pub fn validators(&self) -> (r: &[InitializedValidator])
        ensures
            r@ == self.validators_view(),
    {
        self.validators.as_slice()
    }

    /// The definitions, in order.
    pub fn definitions(&self) -> (r: &ValidatorDefinitions)
        ensures
            r.view() == self.definitions_view(),
    {
        &self.definitions
    }

    /// The directory that the definitions are saved into.
    pub fn validators_dir(&self) -> (r: &std::path::PathBuf)
        ensures
            *r == self.validators_dir_spec(),
    {
        &self.validators_dir
    }

    /// Whether lockfiles are respected.
    pub fn respect_lockfiles(&self) -> (r: bool)
        ensures
            r == self.respects_lockfiles(),
    {
        self.respect_lockfiles
    }

    /// The index of the first definition with key `pk`, if any.
    fn find_first_definition(&self, pk: &PublicKey) -> (r: Option<usize>)
        ensures
            match r {
                Some(i) => is_first_with_key(self.definitions_view(), *pk, i as int),
                None => forall|j: int| 0 <= j < self.definitions_view().len() ==> self.definitions_view()[j].voting_public_key != *pk,
            },
    {
        let n = self.definitions.0.len();
        for i in 0..n
            invariant
                n == self.definitions.0@.len(),
                forall|j: int| 0 <= j < i ==> self.definitions.0@[j].voting_public_key != *pk,
        {
            if public_key_eq(&self.definitions.0[i].voting_public_key, pk) {
                return Some(i);
            }
        }
        None
    }

    /// One step of bringing the validators in line with the definitions, at the cursor. A
    /// definition that is not the first with its key is ignored, as is an enabled one whose key
    /// is known; an enabled one whose key is unknown is handed out for initialization; a disabled
    /// one leaves its key without a validator (which it already is).
    pub fn update_step(&mut self) -> (action: UpdateAction)
        requires
            old(self).wf(),
            !old(self).awaiting(),
        ensures
            final(self).wf(),
            final(self).definitions_view() == old(self).definitions_view(),
            final(self).validators_view() == old(self).validators_view(),
            final(self).failed_keys() == old(self).failed_keys(),
            final(self).respects_lockfiles() == old(self).respects_lockfiles(),
            final(self).validators_dir_spec() == old(self).validators_dir_spec(),
            old(self).cursor() == old(self).definitions_view().len() ==> {
                &&& action is Finished
                &&& final(self).cursor() == old(self).cursor()
                &&& !final(self).awaiting()
            },
            old(self).cursor() < old(self).definitions_view().len() ==> {
                let c = old(self).cursor();
                let defs = old(self).definitions_view();
                let def = defs[c as int];
                let first = is_first_with_key(defs, def.voting_public_key, c as int);
                let known = old(self).keys().contains(def.voting_public_key);
                &&& (!first || (def.enabled && known)) ==> {
                    &&& action == (UpdateAction::Skipped { index: c as usize })
                    &&& final(self).cursor() == c + 1
                    &&& !final(self).awaiting()
                }
                &&& first && def.enabled && !known ==> {
                    &&& action == (UpdateAction::Initialize { index: c as usize })
                    &&& final(self).cursor() == c
                    &&& final(self).awaiting()
                }
                &&& first && !def.enabled ==> {
                    &&& action == (UpdateAction::Disabled { index: c as usize })
                    &&& !known
                    &&& final(self).cursor() == c + 1
                    &&& !final(self).awaiting()
                }
            },
    {
        let c = self.update_cursor;
        if c == self.definitions.0.len() {
            return UpdateAction::Finished;
        }
        let ghost defs = self.definitions_view();
        let pk = self.definitions.0[c].voting_public_key;
        let enabled = self.definitions.0[c].enabled;
        let first = self.find_first_definition(&pk);
        let is_first = match first {
            Some(i) => i == c,
            None => false,
        };
        proof {
            match first {
                Some(i) => {
                    if is_first_with_key(defs, pk, c as int) {
                        lemma_first_unique(defs, pk, i as int, c as int);
                    }
                },
                None => {},
            }
        }
        assert(is_first == is_first_with_key(defs, pk, c as int));
        if !is_first {
            self.update_cursor = c + 1;
            return UpdateAction::Skipped { index: c };
        }
        if !enabled {
            proof {
                if self.keys().contains(pk) {
                    let m = choose|m: int| 0 <= m < self.validators@.len() && (#[trigger] self.validators@[m]).public_key_spec() == pk;
                    assert(first_definition_enabled(defs, pk));
                    let i = choose|i: int| is_first_with_key(defs, pk, i) && defs[i].enabled;
                    lemma_first_unique(defs, pk, i, c as int);
                }
            }
            self.update_cursor = c + 1;
            return UpdateAction::Disabled { index: c };
        }
        match self.find_validator(&pk) {
            Some(_) => {
                self.update_cursor = c + 1;
                UpdateAction::Skipped { index: c }
            },
            None => {
                self.awaiting_initialization = true;
                UpdateAction::Initialize { index: c }
            },
        }
    }

    /// Records the outcome of initializing the definition at the cursor: a validator joins the
    /// set, an error is handed back (to be logged; the update goes on). The cursor moves on.
    pub fn complete_initialization(&mut self, result: Result<InitializedValidator, ValidatorError>) -> (r: Option<ValidatorError>)
        requires
            old(self).wf(),
            old(self).awaiting(),
            result matches Ok(v) ==> v.public_key_spec() == old(self).definitions_view()[old(self).cursor() as int].voting_public_key,
        ensures
            final(self).wf(),
            final(self).definitions_view() == old(self).definitions_view(),
            final(self).respects_lockfiles() == old(self).respects_lockfiles(),
            final(self).validators_dir_spec() == old(self).validators_dir_spec(),
            final(self).cursor() == old(self).cursor() + 1,
            !final(self).awaiting(),
            match result {
                Ok(v) => {
                    &&& r is None
                    &&& final(self).validators_view() == old(self).validators_view().push(v)
                    &&& final(self).failed_keys() == old(self).failed_keys()
                },
                Err(e) => {
                    &&& r == Some(e)
                    &&& final(self).validators_view() == old(self).validators_view()
                    &&& final(self).failed_keys() == old(self).failed_keys().insert(
                        old(self).definitions_view()[old(self).cursor() as int].voting_public_key,
                    )
                },
            },
    {
        let c = self.update_cursor;
        let n = self.definitions.0.len();
        assert(c < n);
        let ghost defs = self.definitions_view();
        let ghost old_vals = self.validators@;
        let ghost old_keys = self.keys();
        self.awaiting_initialization = false;
        self.update_cursor = c + 1;
        match result {
            Ok(v) => {
                let ghost pk = v.public_key_spec();
                self.validators.push(v);
                proof {
                    let vals = self.validators@;
                    assert forall|i: int, j: int|
                        0 <= i < j < vals.len() implies (#[trigger] vals[i]).public_key_spec() != (#[trigger] vals[j]).public_key_spec() by {
                        assert(vals[i] == old_vals[i]);
                        if j == old_vals.len() {
                            assert(old_keys.contains(old_vals[i].public_key_spec()));
                        } else {
                            assert(vals[j] == old_vals[j]);
                        }
                    }
                    assert forall|m: int| 0 <= m < vals.len() implies first_definition_enabled(defs, (#[trigger] vals[m]).public_key_spec()) by {
                        if m == old_vals.len() {
                            assert(is_first_with_key(defs, pk, c as int) && defs[c as int].enabled);
                        } else {
                            assert(vals[m] == old_vals[m]);
                        }
                    }
                    assert forall|i: int|
                        0 <= i < c + 1 && defs[i].enabled && #[trigger] is_first_with_key(defs, defs[i].voting_public_key, i)
                            implies self.keys().contains(defs[i].voting_public_key) || self.failed_keys().contains(defs[i].voting_public_key) by {
                        let k = defs[i].voting_public_key;
                        if i == c {
                            assert(vals[old_vals.len() as int].public_key_spec() == k);
                        } else if old_keys.contains(k) {
                            let m = choose|m: int| 0 <= m < old_vals.len() && (#[trigger] old_vals[m]).public_key_spec() == k;
                            assert(vals[m] == old_vals[m]);
                        }
                    }
                }
                None
            },
            Err(e) => {
                self.failed = Ghost(self.failed@.insert(defs[c as int].voting_public_key));
                Some(e)
            },
        }
    }

    /// Sets `enabled` on the first definition with voting public key `pk` (if there is one),
    /// which decides for that key. A validator whose key is thereby disabled is removed and
    /// handed back (its lockfile is to be released). The update starts over, so that a newly
    /// enabled validator can then be initialized.
    pub fn set_validator_status(&mut self, voting_public_key: &PublicKey, enabled: bool) -> (removed: Option<InitializedValidator>)
        requires
            old(self).wf(),
        ensures
            final(self).wf(),
            final(self).definitions_view() == set_first_enabled(old(self).definitions_view(), *voting_public_key, enabled),
            final(self).keys() == (if !enabled { old(self).keys().remove(*voting_public_key) } else { old(self).keys() }),
            match removed {
                Some(v) => !enabled && v.public_key_spec() == *voting_public_key && exists|i: int|
                    0 <= i < old(self).validators_view().len() && old(self).validators_view()[i] == v
                        && final(self).validators_view() == old(self).validators_view().remove(i),
                None => final(self).validators_view() == old(self).validators_view()
                    && (!enabled ==> !old(self).keys().contains(*voting_public_key)),
            },
            final(self).respects_lockfiles() == old(self).respects_lockfiles(),
            final(self).validators_dir_spec() == old(self).validators_dir_spec(),
            final(self).cursor() == 0,
            !final(self).awaiting(),
            final(self).failed_keys() == Set::<PublicKey>::empty(),
    {
        let ghost defs = self.definitions_view();
        let ghost vals = self.validators@;
        let pk = *voting_public_key;
        self.update_cursor = 0;
        self.awaiting_initialization = false;
        self.failed = Ghost(Set::empty());
        match self.find_first_definition(&pk) {
            None => {
                proof {
                    assert(self.definitions_view() == defs);
                    assert forall|j: int| !is_first_with_key(defs, pk, j) by {
                        if 0 <= j < defs.len() {
                            assert(self.definitions_view()[j].voting_public_key != pk);
                        }
                    }
                    if self.keys().contains(pk) {
                        let m = choose|m: int| 0 <= m < vals.len() && (#[trigger] vals[m]).public_key_spec() == pk;
                        assert(first_definition_enabled(defs, vals[m].public_key_spec()));
                    }
                }
                None
            },
            Some(i) => {
                let mut def = self.definitions.0.remove(i);
                def.enabled = enabled;
                self.definitions.0.insert(i, def);
                let ghost new_defs = self.definitions.0@;
                proof {
                    assert(new_defs =~= defs.update(i as int, with_enabled(defs[i as int], enabled)));
                    let ch = choose|ch: int| is_first_with_key(defs, pk, ch);
                    lemma_first_unique(defs, pk, ch, i as int);
                    assert(set_first_enabled(defs, pk, enabled) == new_defs);
                    // The first definition of every other key is unchanged.
                    assert forall|k: PublicKey, j: int| k != pk && is_first_with_key(defs, k, j) implies #[trigger] is_first_with_key(new_defs, k, j) && new_defs[j].enabled == defs[j].enabled by {
                        assert(j != i);
                    }
                }
                if enabled {
                    proof {
                        assert forall|m: int| 0 <= m < vals.len() implies first_definition_enabled(new_defs, (#[trigger] vals[m]).public_key_spec()) by {
                            let k = vals[m].public_key_spec();
                            assert(first_definition_enabled(defs, k));
                            let j = choose|j: int| is_first_with_key(defs, k, j) && defs[j].enabled;
                            if k == pk {
                                lemma_first_unique(defs, pk, j, i as int);
                                assert(is_first_with_key(new_defs, k, i as int));
                            } else {
                                assert(is_first_with_key(new_defs, k, j));
                            }
                        }
                    }
                    None
                } else {
                    match self.find_validator(&pk) {
                        None => {
                            proof {
                                assert forall|m: int| 0 <= m < vals.len() implies first_definition_enabled(new_defs, (#[trigger] vals[m]).public_key_spec()) by {
                                    let k = vals[m].public_key_spec();
                                    assert(first_definition_enabled(defs, k));
                                    let j = choose|j: int| is_first_with_key(defs, k, j) && defs[j].enabled;
                                    assert(k != pk);
                                    assert(is_first_with_key(new_defs, k, j));
                                }
                                assert(self.keys() =~= key_set(vals).remove(pk));
                            }
                            None
                        },
                        Some(m0) => {
                            let v = self.validators.remove(m0);
                            proof {
                                lemma_key_set_remove(vals, m0 as int);
                                let r = self.validators@;
                                assert forall|a: int, b: int| 0 <= a < b < r.len() implies (#[trigger] r[a]).public_key_spec() != (#[trigger] r[b]).public_key_spec() by {
                                    let a2 = if a < m0 { a } else { a + 1 };
                                    let b2 = if b < m0 { b } else { b + 1 };
                                    assert(r[a] == vals[a2]);
                                    assert(r[b] == vals[b2]);
                                }
                                assert forall|m: int| 0 <= m < r.len() implies first_definition_enabled(new_defs, (#[trigger] r[m]).public_key_spec()) by {
                                    let m2 = if m < m0 { m } else { m + 1 };
                                    assert(r[m] == vals[m2]);
                                    let k = vals[m2].public_key_spec();
                                    assert(k != pk);
                                    assert(first_definition_enabled(defs, k));
                                    let j = choose|j: int| is_first_with_key(defs, k, j) && defs[j].enabled;
                                    assert(is_first_with_key(new_defs, k, j));
                                }
                            }
                            Some(v)
                        },
                    }
                }
            },
        }
    }

    /// Whether the definition at the cursor awaits the outcome of its initialization.
    pub fn awaiting_initialization(&self) -> (r: bool)
        ensures
            r == self.awaiting(),
    {
        self.awaiting_initialization
    }
}

// ---------------------------------------------------------------------------------------------
// Laws

/// Each step of initializing the validator of `def` keeps the state consistent with `def`; the
/// initialization ends exactly when it hands out its outcome; and a validator it hands out is
/// the definition's, with the definition's keystore and that keystore's lockfile.
pub proof fn lemma_initialization_consistent(
    def: ValidatorDefinition,
    respect_lockfiles: bool,
    state: InitState,
    event: InitEvent,
)
    requires
        init_state_consistent(def, state),
        event_fits(state, event),
    ensures
        init_state_consistent(def, initialization_step_spec(def, respect_lockfiles, state, event).0),
        initialization_step_spec(def, respect_lockfiles, state, event).1 is Done
            <==> initialization_step_spec(def, respect_lockfiles, state, event).0 is Finished,
        initialization_step_spec(def, respect_lockfiles, state, event).1 matches InitAction::Done(Ok(v)) ==> {
            &&& v.public_key_spec() == def.voting_public_key
            &&& v.keystore_path_spec() == keystore_path_of(def)
            &&& lockfile_path_of(keystore_path_of(def)) == Ok::<std::path::PathBuf, ValidatorError>(v.lockfile_path_spec())
        },
{
    match state {
        InitState::CreatingLockfile { keypair, lockfile } => {
            lemma_initialized_validator_spec(keystore_path_of(def), lockfile, keypair);
        },
        InitState::WarningLockfile { keypair, lockfile } => {
            lemma_initialized_validator_spec(keystore_path_of(def), lockfile, keypair);
        },
        _ => {},
    }
}

/// An initialization is refused for an existing lockfile exactly when the lockfile of the
/// definition's keystore was found to exist while lockfiles are respected.
pub proof fn lemma_existing_lockfile_refuses(
    def: ValidatorDefinition,
    respect_lockfiles: bool,
    state: InitState,
    event: InitEvent,
    path: std::path::PathBuf,
)
    requires
        init_state_consistent(def, state),
        event_fits(state, event),
    ensures
        initialization_step_spec(def, respect_lockfiles, state, event).1 == InitAction::Done(
            Err(ValidatorError::LockfileExists(path)),
        ) <==> {
            &&& state is ProbingLockfile
            &&& event == (InitEvent::LockfileProbed { exists: true })
            &&& respect_lockfiles
            &&& lockfile_path_of(keystore_path_of(def)) == Ok::<std::path::PathBuf, ValidatorError>(path)
        },
{
}

/// The lockfile is only created on the way to success: creating it is asked for only when it
/// was found missing, and what follows is the validator or the error of creating it. An
/// existing lockfile is only ignored, with a warning, when lockfiles are not respected. The
/// lockfile asked about is always that of the definition's keystore.
pub proof fn lemma_lockfile_only_created_on_success(
    def: ValidatorDefinition,
    respect_lockfiles: bool,
    state: InitState,
    event: InitEvent,
)
    requires
        init_state_consistent(def, state),
        event_fits(state, event),
    ensures
        ({
            let (next, action) = initialization_step_spec(def, respect_lockfiles, state, event);
            &&& action is CreateLockfile ==> {
                &&& state is ProbingLockfile
                &&& event == (InitEvent::LockfileProbed { exists: false })
                &&& next is CreatingLockfile
            }
            &&& state is CreatingLockfile ==> {
                ||| action matches InitAction::Done(Ok(_))
                ||| action matches InitAction::Done(Err(ValidatorError::UnableToCreateLockfile(_)))
            }
            &&& action is WarnLockfileIgnored ==> !respect_lockfiles && event == (InitEvent::LockfileProbed { exists: true })
            &&& action matches InitAction::ProbeLockfile(l) ==> lockfile_path_of(keystore_path_of(def)) == Ok::<std::path::PathBuf, ValidatorError>(l)
            &&& action matches InitAction::CreateLockfile(l) ==> lockfile_path_of(keystore_path_of(def)) == Ok::<std::path::PathBuf, ValidatorError>(l)
            &&& action matches InitAction::WarnLockfileIgnored(l) ==> lockfile_path_of(keystore_path_of(def)) == Ok::<std::path::PathBuf, ValidatorError>(l)
            &&& action matches InitAction::Done(Ok(_)) ==> (state is CreatingLockfile || state is WarningLockfile)
        }),
{
}

/// A lockfile found missing is created next, whether or not lockfiles are respected (that only
/// decides about an existing one), and the keypair and lockfile are carried on.
pub proof fn lemma_missing_lockfile_is_created(
    def: ValidatorDefinition,
    respect_lockfiles: bool,
    keypair: Keypair,
    lockfile: std::path::PathBuf,
)
    requires
        init_state_consistent(def, InitState::ProbingLockfile { keypair, lockfile }),
    ensures
        initialization_step_spec(
            def,
            respect_lockfiles,
            InitState::ProbingLockfile { keypair, lockfile },
            InitEvent::LockfileProbed { exists: false },
        ) == (InitState::CreatingLockfile { keypair, lockfile }, InitAction::CreateLockfile(lockfile)),
{
}

/// The keypair that a state carries, if any.
pub open spec fn carried_keypair(state: InitState) -> Option<Keypair> {
    match state {
        InitState::ProbingLockfile { keypair, .. } => Some(keypair),
        InitState::CreatingLockfile { keypair, .. } => Some(keypair),
        InitState::WarningLockfile { keypair, .. } => Some(keypair),
        _ => None,
    }
}

/// The validator handed out holds exactly the keypair that the keystore decrypted to, secret key
/// included: a step that hears the decrypted keypair carries that very keypair on; a step from a
/// state that carries a keypair carries the same one on; and a validator handed out holds the
/// keypair of the state it was handed out from.
pub proof fn lemma_decrypted_keypair_is_kept(
    def: ValidatorDefinition,
    respect_lockfiles: bool,
    state: InitState,
    event: InitEvent,
)
    requires
        init_state_consistent(def, state),
        event_fits(state, event),
    ensures
        ({
            let (next, action) = initialization_step_spec(def, respect_lockfiles, state, event);
            &&& event matches InitEvent::KeypairDecrypted(Ok(kp)) ==> (carried_keypair(next) is Some ==> carried_keypair(next) == Some(kp))
            &&& (carried_keypair(state) is Some && carried_keypair(next) is Some) ==> carried_keypair(next) == carried_keypair(state)
            &&& carried_keypair(next) is Some ==> (carried_keypair(state) is Some || event is KeypairDecrypted)
            &&& action matches InitAction::Done(Ok(v)) ==> carried_keypair(state) == Some(v.keypair_spec())
        }),
{
    match state {
        InitState::CreatingLockfile { keypair, lockfile } => {
            lemma_initialized_validator_spec(keystore_path_of(def), lockfile, keypair);
        },
        InitState::WarningLockfile { keypair, lockfile } => {
            lemma_initialized_validator_spec(keystore_path_of(def), lockfile, keypair);
        },
        _ => {},
    }
}

/// After the lockfile was asked to be created, the next step, whatever it hears, hands out the
/// validator holding that lockfile or the error of creating it: no other failure leaves a
/// created lockfile behind.
pub proof fn lemma_after_lockfile_creation(
    def: ValidatorDefinition,
    respect_lockfiles: bool,
    state: InitState,
    event: InitEvent,
    created: InitEvent,
)
    requires
        init_state_consistent(def, state),
        event_fits(state, event),
        initialization_step_spec(def, respect_lockfiles, state, event).1 is CreateLockfile,
        event_fits(initialization_step_spec(def, respect_lockfiles, state, event).0, created),
    ensures
        ({
            let (next, action) = initialization_step_spec(def, respect_lockfiles, state, event);
            let outcome = initialization_step_spec(def, respect_lockfiles, next, created).1;
            ||| outcome matches InitAction::Done(Ok(v)) && action == InitAction::CreateLockfile(v.lockfile_path_spec())
            ||| outcome matches InitAction::Done(Err(ValidatorError::UnableToCreateLockfile(_)))
        }),
{
    let (next, action) = initialization_step_spec(def, respect_lockfiles, state, event);
    match next {
        InitState::CreatingLockfile { keypair, lockfile } => {
            lemma_initialized_validator_spec(keystore_path_of(def), lockfile, keypair);
        },
        _ => {},
    }
}

/// Two definitions on the same keystore share its lockfile: a validator initialized for the
/// first holds the very lockfile that the second is checked against, so while that lockfile
/// exists and lockfiles are respected, the second is refused.
pub proof fn lemma_shared_keystore_refused(
    first: ValidatorDefinition,
    first_state: InitState,
    first_event: InitEvent,
    respect_first: bool,
    validator: InitializedValidator,
    second: ValidatorDefinition,
    keypair: Keypair,
    lockfile: std::path::PathBuf,
)
    requires
        init_state_consistent(first, first_state),
        event_fits(first_state, first_event),
        initialization_step_spec(first, respect_first, first_state, first_event).1 == InitAction::Done(
            Ok(validator),
        ),
        keystore_path_of(first) == keystore_path_of(second),
        init_state_consistent(second, InitState::ProbingLockfile { keypair, lockfile }),
    ensures
        lockfile == validator.lockfile_path_spec(),
        initialization_step_spec(
            second,
            true,
            InitState::ProbingLockfile { keypair, lockfile },
            InitEvent::LockfileProbed { exists: true },
        ).1 == InitAction::Done(Err(ValidatorError::LockfileExists(validator.lockfile_path_spec()))),
{
    lemma_initialization_consistent(first, respect_first, first_state, first_event);
}

/// Once an update has gone through every definition, a key whose first definition is enabled has
/// an initialized validator unless its initialization failed in that update; a key with an
/// initialized validator has an enabled first definition.
pub proof fn lemma_update_complete(v: InitializedValidators, pk: PublicKey)
    requires
        v.wf(),
        v.cursor() == v.definitions_view().len(),
    ensures
        first_definition_enabled(v.definitions_view(), pk) ==> v.keys().contains(pk) || v.failed_keys().contains(pk),
        v.keys().contains(pk) ==> first_definition_enabled(v.definitions_view(), pk),
{
    let defs = v.definitions_view();
    if first_definition_enabled(defs, pk) {
        let i = choose|i: int| is_first_with_key(defs, pk, i) && defs[i].enabled;
        assert(is_first_with_key(defs, defs[i].voting_public_key, i));
    }
    if v.keys().contains(pk) {
        lemma_keys_enabled(v, pk);
    }
}

/// An initialized validator's key has an enabled first definition: its validator is enabled.
pub proof fn lemma_keys_enabled(v: InitializedValidators, pk: PublicKey)
    requires
        v.wf(),
        v.keys().contains(pk),
    ensures
        first_definition_enabled(v.definitions_view(), pk),
{
    let vals = v.validators_view();
    let m = choose|m: int| 0 <= m < vals.len() && (#[trigger] vals[m]).public_key_spec() == pk;
    assert(first_definition_enabled(v.definitions_view(), vals[m].public_key_spec()));
}

/// A key whose definitions are all disabled, or that has none, has no initialized validator
/// (so no keypair and no place among the listed keys), at every moment.
pub proof fn lemma_disabled_keys_absent(v: InitializedValidators, pk: PublicKey)
    requires
        v.wf(),
        forall|j: int|
            0 <= j < v.definitions_view().len() && (#[trigger] v.definitions_view()[j]).voting_public_key == pk
                ==> !v.definitions_view()[j].enabled,
    ensures
        !v.keys().contains(pk),
{
    if v.keys().contains(pk) {
        lemma_keys_enabled(v, pk);
        let i = choose|i: int| is_first_with_key(v.definitions_view(), pk, i) && v.definitions_view()[i].enabled;
        assert(!v.definitions_view()[i].enabled);
    }
}

/// There are as many initialized validators as keys among them, no more than the distinct keys
/// of the enabled definitions, which are no more than the definitions.
pub proof fn lemma_enabled_count_bounded(v: InitializedValidators)
    requires
        v.wf(),
    ensures
        v.keys().len() == v.validators_view().len(),
        v.keys().subset_of(enabled_keys(v.definitions_view())),
        enabled_keys(v.definitions_view()).finite(),
        v.validators_view().len() <= enabled_keys(v.definitions_view()).len(),
        enabled_keys(v.definitions_view()).len() <= v.definitions_view().len(),
{
    let defs = v.definitions_view();
    let vals = v.validators_view();
    let ks = vals.map_values(|x: InitializedValidator| x.public_key_spec());
    let ds = defs.map_values(|d: ValidatorDefinition| d.voting_public_key);
    let en = enabled_keys(defs);
    assert(ks.no_duplicates()) by {
        assert forall|a: int, b: int| 0 <= a < ks.len() && 0 <= b < ks.len() && a != b implies ks[a] != ks[b] by {
            if a < b {
                assert(vals[a].public_key_spec() != vals[b].public_key_spec());
            } else {
                assert(vals[b].public_key_spec() != vals[a].public_key_spec());
            }
        }
    }
    ks.unique_seq_to_set();
    assert(ks.to_set() =~= v.keys()) by {
        assert forall|k: PublicKey| v.keys().contains(k) implies ks.to_set().contains(k) by {
            let i = choose|i: int| 0 <= i < vals.len() && (#[trigger] vals[i]).public_key_spec() == k;
            assert(ks[i] == k);
        }
        assert forall|k: PublicKey| ks.to_set().contains(k) implies v.keys().contains(k) by {
            let i = choose|i: int| 0 <= i < ks.len() && ks[i] == k;
            assert(vals[i].public_key_spec() == k);
        }
    }
    assert(v.keys().subset_of(en)) by {
        assert forall|k: PublicKey| v.keys().contains(k) implies en.contains(k) by {
            lemma_keys_enabled(v, k);
            let i = choose|i: int| is_first_with_key(defs, k, i) && defs[i].enabled;
            assert(0 <= i < defs.len() && defs[i].enabled && defs[i].voting_public_key == k);
        }
    }
    ds.lemma_cardinality_of_set();
    vstd::seq_lib::seq_to_set_is_finite(ds);
    assert(en.subset_of(ds.to_set())) by {
        assert forall|k: PublicKey| en.contains(k) implies ds.to_set().contains(k) by {
            let j = choose|j: int| 0 <= j < defs.len() && defs[j].enabled && defs[j].voting_public_key == k;
            assert(ds[j] == k);
        }
    }
    vstd::set_lib::lemma_len_subset(en, ds.to_set());
    vstd::set_lib::lemma_set_subset_finite(ds.to_set(), en);
    vstd::set_lib::lemma_len_subset(v.keys(), en);
}

} // verus!
