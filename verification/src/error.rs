//! Error kinds of the core and of the surrounding protocol layer.

use vstd::prelude::*;

verus! {

/// The ways an operation of the cryptographic core can fail.
#[derive(Debug, Clone, Copy, PartialEq, Eq, Structural)]
pub enum CryptoError {
    /// A key, signature or nonce of the wrong size, malformed input, or a
    /// counter that has no number left to give.
    InvalidInput,
    /// The signature over a signed prekey does not verify.
    SignatureVerification,
    /// The suite id of a bundle or message differs from the session's.
    SuiteMismatch,
    /// The key manager was used before it was initialized.
    Uninitialized,
    /// No session is held under the given id.
    SessionNotFound,
    /// The AEAD refused to encrypt.
    AeadEncryption,
    /// The authentication tag of a ciphertext is invalid.
    AeadDecryption,
    /// Accepting the message would store more skipped keys than allowed.
    TooManySkipped,
    /// The message key was already used or was never stored.
    MessageKeyNotFound,
    /// A session snapshot could not be decoded or is inconsistent.
    Serialization,
    /// Key material could not be made: the key derivation function
    /// refused the requested length, or no randomness could be had.
    KeyDerivation,
}

impl CryptoError {
    /// A short description of the error.
    pub open spec fn spec_message(&self) -> Seq<char> {
        match self {
            CryptoError::InvalidInput => "invalid input"@,
            CryptoError::SignatureVerification => "signature verification failed"@,
            CryptoError::SuiteMismatch => "suite mismatch"@,
            CryptoError::Uninitialized => "key manager not initialized"@,
            CryptoError::SessionNotFound => "session not found"@,
            CryptoError::AeadEncryption => "encryption failed"@,
            CryptoError::AeadDecryption => "decryption failed"@,
            CryptoError::TooManySkipped => "too many skipped messages"@,
            CryptoError::MessageKeyNotFound => "message key not found"@,
            CryptoError::Serialization => "serialization failed"@,
            CryptoError::KeyDerivation => "key derivation failed"@,
        }
    }

    /// A short description of the error.
    pub fn message(&self) -> (text: String)
        ensures
            text@ == self.spec_message(),
    {
        let text: &str = match self {
            CryptoError::InvalidInput => "invalid input",
            CryptoError::SignatureVerification => "signature verification failed",
            CryptoError::SuiteMismatch => "suite mismatch",
            CryptoError::Uninitialized => "key manager not initialized",
            CryptoError::SessionNotFound => "session not found",
            CryptoError::AeadEncryption => "encryption failed",
            CryptoError::AeadDecryption => "decryption failed",
            CryptoError::TooManySkipped => "too many skipped messages",
            CryptoError::MessageKeyNotFound => "message key not found",
            CryptoError::Serialization => "serialization failed",
            CryptoError::KeyDerivation => "key derivation failed",
        };
        text.to_owned()
    }
}

/// The ways an operation of the protocol layer can fail, each with a
/// description of what went wrong.
#[derive(Debug, Clone)]
pub enum ConstructError {
    CryptoError(String),
    StorageError(String),
    NetworkError(String),
    SerializationError(String),
    ValidationError(String),
    SessionError(String),
    NotFound(String),
    InternalError(String),
}

/// The errors of the protocol layer under their older name.
pub type MessengerError = ConstructError;

impl ConstructError {
    /// The description the error carries.
    pub fn message(&self) -> (text: &String)
        ensures
            text@ == self.spec_message(),
    {
        match self {
            ConstructError::CryptoError(text) => text,
            ConstructError::StorageError(text) => text,
            ConstructError::NetworkError(text) => text,
            ConstructError::SerializationError(text) => text,
            ConstructError::ValidationError(text) => text,
            ConstructError::SessionError(text) => text,
            ConstructError::NotFound(text) => text,
            ConstructError::InternalError(text) => text,
        }
    }

    /// The description the error carries.
    pub open spec fn spec_message(&self) -> Seq<char> {
        match self {
            ConstructError::CryptoError(text) => text@,
            ConstructError::StorageError(text) => text@,
            ConstructError::NetworkError(text) => text@,
            ConstructError::SerializationError(text) => text@,
            ConstructError::ValidationError(text) => text@,
            ConstructError::SessionError(text) => text@,
            ConstructError::NotFound(text) => text@,
            ConstructError::InternalError(text) => text@,
        }
    }
}

} // verus!
