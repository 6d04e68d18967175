//! The error taxonomy shared by every component of the vault.

use vstd::prelude::*;
use vstd::std_specs::convert::FromSpecImpl;

verus! {

/// The opaque failure of an authenticated encryption or decryption.
#[verifier::external_type_specification]
#[verifier::external_body]
pub struct ExAeadError(chacha20poly1305::aead::Error);

/// The failure of a password-hashing operation.
#[verifier::external_type_specification]
#[verifier::external_body]
pub struct ExPasswordHashError(argon2::password_hash::Error);

/// The failure of a JSON parse.
#[verifier::external_type_specification]
#[verifier::external_body]
pub struct ExJsonError(serde_json::Error);

/// Everything that can go wrong in the vault, by kind.
#[derive(Debug)]
pub enum ChacrabError {
    /// The master password or the verifier did not match.
    InvalidCredentials,
    /// No session key is stored.
    NoActiveSession,
    /// The idle timeout of the session was exceeded.
    SessionExpired,
    /// The secret store failed at the platform or transport level.
    KeyringUnavailable,
    /// The secret store is reachable but waits to be unlocked.
    KeyringLocked,
    /// The item or the authentication record does not exist.
    NotFound,
    /// The backend identifier is not one of the supported ones.
    UnsupportedBackend(String),
    /// A validation, policy or configuration failure, with its reason.
    Config(String),
    /// An authenticated-encryption or verifier failure.
    Crypto,
    /// Malformed JSON or base64.
    Serialization,
    /// A repository failure.
    Storage,
}

/// Shorthand for results that fail with a [`ChacrabError`].
pub type ChacrabResult<T> = Result<T, ChacrabError>;

/// The mathematical value of a [`ChacrabError`]: its kind, with the carried
/// text as a sequence of characters.
pub enum ErrorKind {
    InvalidCredentials,
    NoActiveSession,
    SessionExpired,
    KeyringUnavailable,
    KeyringLocked,
    NotFound,
    UnsupportedBackend(Seq<char>),
    Config(Seq<char>),
    Crypto,
    Serialization,
    Storage,
}

impl View for ChacrabError {
    type V = ErrorKind;

    open spec fn view(&self) -> ErrorKind {
        match self {
            ChacrabError::InvalidCredentials => ErrorKind::InvalidCredentials,
            ChacrabError::NoActiveSession => ErrorKind::NoActiveSession,
            ChacrabError::SessionExpired => ErrorKind::SessionExpired,
            ChacrabError::KeyringUnavailable => ErrorKind::KeyringUnavailable,
            ChacrabError::KeyringLocked => ErrorKind::KeyringLocked,
            ChacrabError::NotFound => ErrorKind::NotFound,
            ChacrabError::UnsupportedBackend(name) => ErrorKind::UnsupportedBackend(name@),
            ChacrabError::Config(reason) => ErrorKind::Config(reason@),
            ChacrabError::Crypto => ErrorKind::Crypto,
            ChacrabError::Serialization => ErrorKind::Serialization,
            ChacrabError::Storage => ErrorKind::Storage,
        }
    }
}

/// The sentence that describes an error kind.
pub open spec fn message_of(kind: ErrorKind) -> Seq<char> {
    match kind {
        ErrorKind::InvalidCredentials => "invalid credentials"@,
        ErrorKind::NoActiveSession => "no active session"@,
        ErrorKind::SessionExpired => "session expired"@,
        ErrorKind::KeyringUnavailable => "keyring unavailable"@,
        ErrorKind::KeyringLocked => "keyring locked"@,
        ErrorKind::NotFound => "item not found"@,
        ErrorKind::UnsupportedBackend(name) => "unsupported backend: "@ + name,
        ErrorKind::Config(reason) => "configuration error: "@ + reason,
        ErrorKind::Crypto => "crypto operation failed"@,
        ErrorKind::Serialization => "serialization failed"@,
        ErrorKind::Storage => "storage operation failed"@,
    }
}

impl ChacrabError {
    /// A configuration error that carries `reason`.
    pub fn config(reason: &str) -> (e: ChacrabError)
        ensures
            e@ == ErrorKind::Config(reason@),
    {
        ChacrabError::Config(reason.to_owned())
    }

    /// The sentence that describes this error. Cryptographic and storage
    /// failures never carry more than their kind.
    pub fn message(&self) -> (text: String)
        ensures
            text@ == message_of(self@),
    {
        match self {
            ChacrabError::InvalidCredentials => "invalid credentials".to_owned(),
            ChacrabError::NoActiveSession => "no active session".to_owned(),
            ChacrabError::SessionExpired => "session expired".to_owned(),
            ChacrabError::KeyringUnavailable => "keyring unavailable".to_owned(),
            ChacrabError::KeyringLocked => "keyring locked".to_owned(),
            ChacrabError::NotFound => "item not found".to_owned(),
            ChacrabError::UnsupportedBackend(name) => {
                "unsupported backend: ".to_owned().concat(name.as_str())
            },
            ChacrabError::Config(reason) => {
                "configuration error: ".to_owned().concat(reason.as_str())
            },
            ChacrabError::Crypto => "crypto operation failed".to_owned(),
            ChacrabError::Serialization => "serialization failed".to_owned(),
            ChacrabError::Storage => "storage operation failed".to_owned(),
        }
    }
}

impl From<chacha20poly1305::aead::Error> for ChacrabError {
    /// Every encryption failure is reported as `Crypto`, whatever sub-step
    /// failed.
    fn from(error: chacha20poly1305::aead::Error) -> (e: ChacrabError) {
        ChacrabError::Crypto
    }
}

impl FromSpecImpl<chacha20poly1305::aead::Error> for ChacrabError {
    open spec fn obeys_from_spec() -> bool {
        true
    }

    open spec fn from_spec(error: chacha20poly1305::aead::Error) -> ChacrabError {
        ChacrabError::Crypto
    }
}

impl From<argon2::password_hash::Error> for ChacrabError {
    /// Every password-hashing failure is reported as `Crypto`.
    fn from(error: argon2::password_hash::Error) -> (e: ChacrabError) {
        ChacrabError::Crypto
    }
}

impl FromSpecImpl<argon2::password_hash::Error> for ChacrabError {
    open spec fn obeys_from_spec() -> bool {
        true
    }

    open spec fn from_spec(error: argon2::password_hash::Error) -> ChacrabError {
        ChacrabError::Crypto
    }
}

impl From<serde_json::Error> for ChacrabError {
    /// Every JSON failure is reported as `Serialization`.
    fn from(error: serde_json::Error) -> (e: ChacrabError) {
        ChacrabError::Serialization
    }
}

impl FromSpecImpl<serde_json::Error> for ChacrabError {
    open spec fn obeys_from_spec() -> bool {
        true
    }

    open spec fn from_spec(error: serde_json::Error) -> ChacrabError {
        ChacrabError::Serialization
    }
}

} // verus!
