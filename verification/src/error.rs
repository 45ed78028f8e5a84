//! The error taxonomy shared by every layer of the library.

use vstd::prelude::*;

verus! {

/// Why a cryptographic or decoding step on one field failed.
#[derive(Clone, Copy, Debug, PartialEq, Eq, Structural)]
pub enum EncryptionError {
    /// The operation needs a key and none is set.
    NoKey,
    /// The guard around the key could not be taken.
    KeyLockFailed,
    /// The input has the shape of ciphertext but does not authenticate.
    InvalidKey,
    /// The input is too short to be ciphertext, or does not look like any.
    NotEncrypted,
    /// Base64 or UTF-8 decoding around the cipher failed.
    DecryptionFailed,
    /// The cipher or the random source refused to seal.
    EncryptionFailed,
}

impl EncryptionError {
    /// The stable text of the error, fit for display.
    pub open spec fn message_text(self) -> Seq<char> {
        match self {
            EncryptionError::NoKey => "No encryption key set"@,
            EncryptionError::KeyLockFailed => "Failed to acquire the encryption key lock"@,
            EncryptionError::InvalidKey => "Invalid encryption key"@,
            EncryptionError::NotEncrypted => "Data is not encrypted"@,
            EncryptionError::DecryptionFailed => "Decryption failed"@,
            EncryptionError::EncryptionFailed => "Encryption failed"@,
        }
    }

    /// Renders the error as its stable text.
    pub fn message(&self) -> (text: String)
        ensures
            text@ == self.message_text(),
    {
        match self {
            EncryptionError::NoKey => "No encryption key set".to_owned(),
            EncryptionError::KeyLockFailed => "Failed to acquire the encryption key lock".to_owned(),
            EncryptionError::InvalidKey => "Invalid encryption key".to_owned(),
            EncryptionError::NotEncrypted => "Data is not encrypted".to_owned(),
            EncryptionError::DecryptionFailed => "Decryption failed".to_owned(),
            EncryptionError::EncryptionFailed => "Encryption failed".to_owned(),
        }
    }
}

/// Why a whole command was given up. Each variant has a stable reason code
/// that a user interface can show.
#[derive(Clone, Copy, Debug, PartialEq, Eq, Structural)]
pub enum CommandError {
    /// Encryption cannot be removed where no key is set.
    NoEncryptionKeySet,
    /// The password does not derive the stored key.
    PasswordIncorrect,
    /// The key could not be consulted.
    Encryption(EncryptionError),
    /// The list of remote entries could not be fetched.
    RemoteFetchFailed,
    /// The local store refused to read or write.
    StorageFailed,
    /// The driver reported something that the operation was not waiting for.
    OutOfOrder,
}

impl CommandError {
    /// The reason code of the error.
    pub open spec fn reason_text(self) -> Seq<char> {
        match self {
            CommandError::NoEncryptionKeySet => "MAIN.ERROR.NO_ENCRYPTION_KEY_SET"@,
            CommandError::PasswordIncorrect => "MAIN.ERROR.INCORRECT_PASSWORD"@,
            CommandError::Encryption(e) => e.message_text(),
            CommandError::RemoteFetchFailed => "MAIN.ERROR.REMOTE_FETCH_FAILED"@,
            CommandError::StorageFailed => "MAIN.ERROR.STORAGE_FAILED"@,
            CommandError::OutOfOrder => "MAIN.ERROR.OUT_OF_ORDER"@,
        }
    }

    /// Renders the error as its reason code.
    pub fn reason(&self) -> (text: String)
        ensures
            text@ == self.reason_text(),
    {
        match self {
            CommandError::NoEncryptionKeySet => "MAIN.ERROR.NO_ENCRYPTION_KEY_SET".to_owned(),
            CommandError::PasswordIncorrect => "MAIN.ERROR.INCORRECT_PASSWORD".to_owned(),
            CommandError::Encryption(e) => e.message(),
            CommandError::RemoteFetchFailed => "MAIN.ERROR.REMOTE_FETCH_FAILED".to_owned(),
            CommandError::StorageFailed => "MAIN.ERROR.STORAGE_FAILED".to_owned(),
            CommandError::OutOfOrder => "MAIN.ERROR.OUT_OF_ORDER".to_owned(),
        }
    }
}

} // verus!
