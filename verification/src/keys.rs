use vstd::prelude::*;
use vstd::string::StringExecFns;
use crate::text::hex_lower;

verus! {

/// `RngCore::try_fill_bytes` on `rand::rngs::OsRng`, filling 32 bytes from the operating
/// system's randomness, or the message of the error the system gave. Trusted only for the length
/// of the bytes: which bytes, and whether the system has randomness to give, is chance.
#[verifier::external_body]
fn random_key_bytes() -> (r: Result<Vec<u8>, String>)
    ensures
        r matches Ok(bytes) ==> bytes@.len() == 32,
{
    let mut bytes = [0u8; 32];
    match rand::RngCore::try_fill_bytes(&mut rand::rngs::OsRng, &mut bytes) {
        Ok(()) => Ok(bytes.to_vec()),
        Err(e) => Err(e.to_string()),
    }
}

/// `hex::encode`: the bytes in lower-case hexadecimal, two digits each, as the crate documents.
#[verifier::external_body]
fn hex_encode(bytes: &[u8]) -> (r: String)
    ensures
        r@ == hex_lower(bytes@),
{
    hex::encode(bytes)
}

/// A new database key: 32 random bytes in lower-case hexadecimal, or the message of the
/// system's error where it had no randomness to give.
pub fn generate_key() -> (r: Result<String, String>)
    ensures
        r matches Ok(key) ==> exists|bytes: Seq<u8>| bytes.len() == 32 && key@ == #[trigger] hex_lower(bytes),
{
    let bytes = random_key_bytes()?;
    Ok(hex_encode(bytes.as_slice()))
}

/// Where loading the database key stands.
#[derive(Debug)]
pub enum KeyState {
    /// Waiting for the keychain's entry.
    ReadingKeychain,
    /// The keychain had no key: waiting to learn whether a key file exists.
    CheckingFallbackFile,
    /// Waiting to learn whether the key file exists; `to_keychain`: the key goes to the
    /// keychain afterwards.
    CheckingKeyFile { to_keychain: bool },
    /// Waiting for the key file's contents.
    ReadingKeyFile { to_keychain: bool },
    /// Waiting for a fresh key; `to_file`: it is written to the key file.
    Generating { to_file: bool, to_keychain: bool },
    /// Waiting for the key file to be written.
    WritingKeyFile { key: String, to_keychain: bool },
    /// Waiting for the keychain to store the key.
    SavingToKeychain { key: String },
    /// Done.
    Finished,
}

/// What the caller does next while loading the database key.
#[derive(Debug)]
pub enum KeyAction {
    ReadKeychain,
    CheckKeyFile,
    ReadKeyFile,
    GenerateKey,
    WriteKeyFile(String),
    SaveToKeychain(String),
    /// Loading ended with the key, or with the message of what failed.
    Finish(Result<String, String>),
}

/// What the caller reports back: the outcome of the action it was given. Errors carry the
/// underlying error's message.
#[derive(Debug)]
pub enum KeyEvent {
    KeychainRead(Result<String, String>),
    KeyFileExists(bool),
    KeyFileRead(Result<String, String>),
    KeyGenerated(Result<String, String>),
    KeyFileWritten(Result<(), String>),
    KeychainSaved(Result<(), String>),
}

/// Whether an event answers the action that a state waits on.
pub open spec fn answers(state: KeyState, event: KeyEvent) -> bool {
    match state {
        KeyState::ReadingKeychain => event is KeychainRead,
        KeyState::CheckingFallbackFile => event is KeyFileExists,
        KeyState::CheckingKeyFile { .. } => event is KeyFileExists,
        KeyState::ReadingKeyFile { .. } => event is KeyFileRead,
        KeyState::Generating { .. } => event is KeyGenerated,
        KeyState::WritingKeyFile { .. } => event is KeyFileWritten,
        KeyState::SavingToKeychain { .. } => event is KeychainSaved,
        KeyState::Finished => false,
    }
}

/// Whether a state is one that `start_key_load` and `key_load_step` produce: a fresh key is
/// written to the file, or saved to the keychain, or both.
pub open spec fn key_state_ok(state: KeyState) -> bool {
    state matches KeyState::Generating { to_file, to_keychain } ==> to_file || to_keychain
}

/// The first step of loading the database key: from the keychain where it is used, otherwise
/// from the key file.
pub fn start_key_load(use_keychain: bool) -> (r: (KeyState, KeyAction))
    ensures
        use_keychain ==> r.0 is ReadingKeychain && r.1 is ReadKeychain,
        !use_keychain ==> r.0 == (KeyState::CheckingKeyFile { to_keychain: false }) && r.1 is CheckKeyFile,
{
    if use_keychain {
        (KeyState::ReadingKeychain, KeyAction::ReadKeychain)
    } else {
        (KeyState::CheckingKeyFile { to_keychain: false }, KeyAction::CheckKeyFile)
    }
}

/// The text an error message gets in front.
pub open spec fn prefixed(prefix: Seq<char>, message: String) -> Seq<char> {
    prefix + message@
}

/// The next step of loading the database key. A key in the keychain is used. Without one, the
/// key file is read if it exists and a fresh key made if not; either goes to the keychain. Without
/// the keychain, the key file is read if it exists; otherwise a fresh key is made and written to
/// it. Errors end the load with a message naming what failed.
pub fn key_load_step(state: KeyState, event: KeyEvent) -> (r: (KeyState, KeyAction))
    requires
        answers(state, event),
        key_state_ok(state),
    ensures
        key_state_ok(r.0),
        r.1 is Finish <==> r.0 is Finished,
        match (state, event) {
            (KeyState::ReadingKeychain, KeyEvent::KeychainRead(Ok(key))) =>
                r.1 == KeyAction::Finish(Ok(key)),
            (KeyState::ReadingKeychain, KeyEvent::KeychainRead(Err(_))) =>
                r.0 is CheckingFallbackFile && r.1 is CheckKeyFile,
            (KeyState::CheckingFallbackFile, KeyEvent::KeyFileExists(true)) =>
                r.0 == (KeyState::CheckingKeyFile { to_keychain: true }) && r.1 is CheckKeyFile,
            (KeyState::CheckingFallbackFile, KeyEvent::KeyFileExists(false)) =>
                r.0 == (KeyState::Generating { to_file: false, to_keychain: true }) && r.1 is GenerateKey,
            (KeyState::CheckingKeyFile { to_keychain }, KeyEvent::KeyFileExists(true)) =>
                r.0 == (KeyState::ReadingKeyFile { to_keychain }) && r.1 is ReadKeyFile,
            (KeyState::CheckingKeyFile { to_keychain }, KeyEvent::KeyFileExists(false)) =>
                r.0 == (KeyState::Generating { to_file: true, to_keychain }) && r.1 is GenerateKey,
            (KeyState::ReadingKeyFile { to_keychain }, KeyEvent::KeyFileRead(Ok(key))) =>
                if to_keychain {
                    r.0 == (KeyState::SavingToKeychain { key }) && r.1 == KeyAction::SaveToKeychain(key)
                } else {
                    r.1 == KeyAction::Finish(Ok(key))
                },
            (KeyState::ReadingKeyFile { .. }, KeyEvent::KeyFileRead(Err(e))) =>
                r.1 matches KeyAction::Finish(Err(m)) && m@ == prefixed("Error reading key: "@, e),
            (KeyState::Generating { .. }, KeyEvent::KeyGenerated(Err(e))) =>
                r.1 matches KeyAction::Finish(Err(m)) && m@ == prefixed("Error generating key: "@, e),
            (KeyState::Generating { to_file, to_keychain }, KeyEvent::KeyGenerated(Ok(key))) =>
                if to_file {
                    r.0 == (KeyState::WritingKeyFile { key, to_keychain }) && r.1 == KeyAction::WriteKeyFile(key)
                } else {
                    r.0 == (KeyState::SavingToKeychain { key }) && r.1 == KeyAction::SaveToKeychain(key)
                },
            (KeyState::WritingKeyFile { key, to_keychain }, KeyEvent::KeyFileWritten(Ok(()))) =>
                if to_keychain {
                    r.0 == (KeyState::SavingToKeychain { key }) && r.1 == KeyAction::SaveToKeychain(key)
                } else {
                    r.1 == KeyAction::Finish(Ok(key))
                },
            (KeyState::WritingKeyFile { .. }, KeyEvent::KeyFileWritten(Err(e))) =>
                r.1 matches KeyAction::Finish(Err(m)) && m@ == prefixed("Error writing key: "@, e),
            (KeyState::SavingToKeychain { key }, KeyEvent::KeychainSaved(Ok(()))) =>
                r.1 == KeyAction::Finish(Ok(key)),
            (KeyState::SavingToKeychain { .. }, KeyEvent::KeychainSaved(Err(e))) =>
                r.1 matches KeyAction::Finish(Err(m)) && m@ == prefixed("Error saving key to keychain: "@, e),
            _ => false,
        },
{
    match (state, event) {
        (KeyState::ReadingKeychain, KeyEvent::KeychainRead(Ok(key))) =>
            (KeyState::Finished, KeyAction::Finish(Ok(key))),
        (KeyState::ReadingKeychain, KeyEvent::KeychainRead(Err(_))) =>
            (KeyState::CheckingFallbackFile, KeyAction::CheckKeyFile),
        (KeyState::CheckingFallbackFile, KeyEvent::KeyFileExists(exists)) => {
            if exists {
                (KeyState::CheckingKeyFile { to_keychain: true }, KeyAction::CheckKeyFile)
            } else {
                (KeyState::Generating { to_file: false, to_keychain: true }, KeyAction::GenerateKey)
            }
        },
        (KeyState::CheckingKeyFile { to_keychain }, KeyEvent::KeyFileExists(exists)) => {
            if exists {
                (KeyState::ReadingKeyFile { to_keychain }, KeyAction::ReadKeyFile)
            } else {
                (KeyState::Generating { to_file: true, to_keychain }, KeyAction::GenerateKey)
            }
        },
        (KeyState::ReadingKeyFile { to_keychain }, KeyEvent::KeyFileRead(Ok(key))) => {
            if to_keychain {
                let k = key.clone();
                (KeyState::SavingToKeychain { key }, KeyAction::SaveToKeychain(k))
            } else {
                (KeyState::Finished, KeyAction::Finish(Ok(key)))
            }
        },
        (KeyState::ReadingKeyFile { .. }, KeyEvent::KeyFileRead(Err(e))) => {
            let mut m = String::from_str("Error reading key: ");
            m.append(e.as_str());
            (KeyState::Finished, KeyAction::Finish(Err(m)))
        },
        (KeyState::Generating { .. }, KeyEvent::KeyGenerated(Err(e))) => {
            let mut m = String::from_str("Error generating key: ");
            m.append(e.as_str());
            (KeyState::Finished, KeyAction::Finish(Err(m)))
        },
        (KeyState::Generating { to_file, to_keychain }, KeyEvent::KeyGenerated(Ok(key))) => {
            let k = key.clone();
            if to_file {
                (KeyState::WritingKeyFile { key, to_keychain }, KeyAction::WriteKeyFile(k))
            } else {
                (KeyState::SavingToKeychain { key }, KeyAction::SaveToKeychain(k))
            }
        },
        (KeyState::WritingKeyFile { key, to_keychain }, KeyEvent::KeyFileWritten(Ok(()))) => {
            if to_keychain {
                let k = key.clone();
                (KeyState::SavingToKeychain { key }, KeyAction::SaveToKeychain(k))
            } else {
                (KeyState::Finished, KeyAction::Finish(Ok(key)))
            }
        },
        (KeyState::WritingKeyFile { .. }, KeyEvent::KeyFileWritten(Err(e))) => {
            let mut m = String::from_str("Error writing key: ");
            m.append(e.as_str());
            (KeyState::Finished, KeyAction::Finish(Err(m)))
        },
        (KeyState::SavingToKeychain { key }, KeyEvent::KeychainSaved(Ok(()))) =>
            (KeyState::Finished, KeyAction::Finish(Ok(key))),
        (KeyState::SavingToKeychain { .. }, KeyEvent::KeychainSaved(Err(e))) => {
            let mut m = String::from_str("Error saving key to keychain: ");
            m.append(e.as_str());
            (KeyState::Finished, KeyAction::Finish(Err(m)))
        },
        (_, _) => {
            assert(false);
            (KeyState::Finished, KeyAction::Finish(Err(String::new())))
        },
    }
}


/// Where moving the database key into or out of the system keychain stands.
#[derive(Debug)]
pub enum KeychainMoveState {
    /// Waiting for the key of the key file, made there where there is none.
    LoadingKey,
    /// Waiting for the keychain to store the key.
    SavingKey { key: String },
    /// Waiting for the key file to be removed.
    RemovingKeyFile { key: String },
    /// Waiting for the key file to be written.
    WritingKeyFile,
    /// Waiting for the keychain's entry to be deleted.
    DeletingEntry,
    /// Done.
    Finished,
}

/// How a move of the key ends: whether the keychain is in use afterwards, the key now cached
/// where one was stored (`None` leaves the cache as it was), and the status line.
#[derive(Debug)]
pub struct KeychainMoveOutcome {
    pub use_keychain: bool,
    pub stored_key: Option<String>,
    pub status_text: String,
}

/// What the caller does next while moving the key.
#[derive(Debug)]
pub enum KeychainMoveAction {
    /// Load the key from the key file, or make and write one there.
    LoadKey,
    SaveToKeychain(String),
    RemoveKeyFile,
    WriteKeyFile(String),
    DeleteKeychainEntry,
    Finish(KeychainMoveOutcome),
}

/// What the caller reports back. Errors carry the underlying error's message; the outcome of
/// removing the key file and of deleting the keychain entry is not looked at.
#[derive(Debug)]
pub enum KeychainMoveEvent {
    KeyLoaded(Result<String, String>),
    KeychainSaved(Result<(), String>),
    KeyFileRemoved,
    KeyFileWritten(Result<(), String>),
    KeychainEntryDeleted,
}

/// Whether an event answers the action that a state waits on.
pub open spec fn answers_move(state: KeychainMoveState, event: KeychainMoveEvent) -> bool {
    match state {
        KeychainMoveState::LoadingKey => event is KeyLoaded,
        KeychainMoveState::SavingKey { .. } => event is KeychainSaved,
        KeychainMoveState::RemovingKeyFile { .. } => event is KeyFileRemoved,
        KeychainMoveState::WritingKeyFile => event is KeyFileWritten,
        KeychainMoveState::DeletingEntry => event is KeychainEntryDeleted,
        KeychainMoveState::Finished => false,
    }
}

/// The outcome of a move that failed or was refused: the keychain setting goes back, the
/// cached key stays.
pub open spec fn move_failed(r: KeychainMoveAction, use_keychain: bool, status: Seq<char>) -> bool {
    r matches KeychainMoveAction::Finish(o) && o.use_keychain == use_keychain && o.stored_key is None
        && o.status_text@ == status
}

/// The first step after the keychain setting was switched to `want_keychain`. Into the
/// keychain: the cached key is saved there, or without one the key file's key is loaded first.
/// Out of the keychain: the cached key is written to the key file; without one nothing can be
/// written and the setting goes back.
pub fn start_keychain_move(want_keychain: bool, db_key: Option<String>) -> (r: (KeychainMoveState, KeychainMoveAction))
    ensures
        r.1 is Finish <==> r.0 is Finished,
        match (want_keychain, db_key) {
            (true, Some(key)) => r.0 == (KeychainMoveState::SavingKey { key }) && r.1 == KeychainMoveAction::SaveToKeychain(key),
            (true, None) => r.0 is LoadingKey && r.1 is LoadKey,
            (false, Some(key)) => r.0 is WritingKeyFile && r.1 == KeychainMoveAction::WriteKeyFile(key),
            (false, None) => move_failed(r.1, true, "No cached key available"@),
        },
{
    match (want_keychain, db_key) {
        (true, Some(key)) => {
            let k = key.clone();
            (KeychainMoveState::SavingKey { key }, KeychainMoveAction::SaveToKeychain(k))
        },
        (true, None) => (KeychainMoveState::LoadingKey, KeychainMoveAction::LoadKey),
        (false, Some(key)) => (KeychainMoveState::WritingKeyFile, KeychainMoveAction::WriteKeyFile(key)),
        (false, None) => {
            let o = KeychainMoveOutcome {
                use_keychain: true,
                stored_key: None,
                status_text: String::from_str("No cached key available"),
            };
            (KeychainMoveState::Finished, KeychainMoveAction::Finish(o))
        },
    }
}

/// The next step of moving the key. Into the keychain, the key is saved there, then the key file
/// is removed and the key cached. Out of it, the key file is written, then the keychain entry
/// deleted. A failure ends the move with the setting switched back and a message naming it.
pub fn keychain_move_step(state: KeychainMoveState, event: KeychainMoveEvent) -> (r: (KeychainMoveState, KeychainMoveAction))
    requires
        answers_move(state, event),
    ensures
        r.1 is Finish <==> r.0 is Finished,
        match (state, event) {
            (KeychainMoveState::LoadingKey, KeychainMoveEvent::KeyLoaded(Ok(key))) =>
                r.0 == (KeychainMoveState::SavingKey { key }) && r.1 == KeychainMoveAction::SaveToKeychain(key),
            (KeychainMoveState::LoadingKey, KeychainMoveEvent::KeyLoaded(Err(e))) =>
                move_failed(r.1, false, prefixed("Error reading key for keychain: "@, e)),
            (KeychainMoveState::SavingKey { key }, KeychainMoveEvent::KeychainSaved(Ok(()))) =>
                r.0 == (KeychainMoveState::RemovingKeyFile { key }) && r.1 is RemoveKeyFile,
            (KeychainMoveState::SavingKey { .. }, KeychainMoveEvent::KeychainSaved(Err(e))) =>
                move_failed(r.1, false, prefixed("Error saving key to keychain: "@, e)),
            (KeychainMoveState::RemovingKeyFile { key }, KeychainMoveEvent::KeyFileRemoved) =>
                r.1 matches KeychainMoveAction::Finish(o) && o.use_keychain && o.stored_key == Some(key)
                    && o.status_text@ == "Key stored in system keychain"@,
            (KeychainMoveState::WritingKeyFile, KeychainMoveEvent::KeyFileWritten(Ok(()))) =>
                r.0 is DeletingEntry && r.1 is DeleteKeychainEntry,
            (KeychainMoveState::WritingKeyFile, KeychainMoveEvent::KeyFileWritten(Err(e))) =>
                move_failed(r.1, true, prefixed("Error writing key to file: "@, e)),
            (KeychainMoveState::DeletingEntry, KeychainMoveEvent::KeychainEntryDeleted) =>
                move_failed(r.1, false, "Key removed from system keychain"@),
            _ => false,
        },
{
    match (state, event) {
        (KeychainMoveState::LoadingKey, KeychainMoveEvent::KeyLoaded(Ok(key))) => {
            let k = key.clone();
            (KeychainMoveState::SavingKey { key }, KeychainMoveAction::SaveToKeychain(k))
        },
        (KeychainMoveState::LoadingKey, KeychainMoveEvent::KeyLoaded(Err(e))) =>
            finish_move(false, None, "Error reading key for keychain: ", e.as_str()),
        (KeychainMoveState::SavingKey { key }, KeychainMoveEvent::KeychainSaved(Ok(()))) =>
            (KeychainMoveState::RemovingKeyFile { key }, KeychainMoveAction::RemoveKeyFile),
        (KeychainMoveState::SavingKey { .. }, KeychainMoveEvent::KeychainSaved(Err(e))) =>
            finish_move(false, None, "Error saving key to keychain: ", e.as_str()),
        (KeychainMoveState::RemovingKeyFile { key }, KeychainMoveEvent::KeyFileRemoved) =>
            finished_move(true, Some(key), String::from_str("Key stored in system keychain")),
        (KeychainMoveState::WritingKeyFile, KeychainMoveEvent::KeyFileWritten(Ok(()))) =>
            (KeychainMoveState::DeletingEntry, KeychainMoveAction::DeleteKeychainEntry),
        (KeychainMoveState::WritingKeyFile, KeychainMoveEvent::KeyFileWritten(Err(e))) =>
            finish_move(true, None, "Error writing key to file: ", e.as_str()),
        (KeychainMoveState::DeletingEntry, KeychainMoveEvent::KeychainEntryDeleted) =>
            finished_move(false, None, String::from_str("Key removed from system keychain")),
        (_, _) => {
            assert(false);
            (KeychainMoveState::Finished, KeychainMoveAction::LoadKey)
        },
    }
}

/// Ends a move with the given setting, stored key and status line `text` + `detail`.
fn finish_move(use_keychain: bool, stored_key: Option<String>, text: &str, detail: &str) -> (r: (KeychainMoveState, KeychainMoveAction))
    ensures
        r.0 is Finished,
        r.1 matches KeychainMoveAction::Finish(o) && o.use_keychain == use_keychain
            && o.stored_key == stored_key && o.status_text@ == text@ + detail@,
{
    let mut status_text = String::from_str(text);
    status_text.append(detail);
    finished_move(use_keychain, stored_key, status_text)
}

/// Ends a move with the given setting, stored key and status line.
fn finished_move(use_keychain: bool, stored_key: Option<String>, status_text: String) -> (r: (KeychainMoveState, KeychainMoveAction))
    ensures
        r.0 is Finished,
        r.1 matches KeychainMoveAction::Finish(o) && o.use_keychain == use_keychain
            && o.stored_key == stored_key && o.status_text == status_text,
{
    (KeychainMoveState::Finished, KeychainMoveAction::Finish(KeychainMoveOutcome { use_keychain, stored_key, status_text }))
}

} // verus!
