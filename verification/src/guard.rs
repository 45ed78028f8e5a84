//! A key store behind a lock, for a key that several tasks share.
//!
//! The lock is std's `Mutex`. Each operation takes the lock, copies the store
//! out or writes a new one in, and lets the lock go at once; a lock that
//! cannot be taken is the structured error `KeyLockFailed`, never a panic.
//! What another task does between two operations is not this module's to
//! say, so the contracts here state what holds of every outcome; the exact
//! statements are those of the functions on `KeyStore` that do the work.

use vstd::prelude::*;
use crate::error::EncryptionError;
use crate::keystore::{digestible, is_key_set, password_check, set_encryption_key, verify_password, KeyStore};

verus! {

/// Makes `std::sync::Mutex` known as an opaque type: nothing is claimed of
/// what a mutex holds.
#[verifier::external_type_specification]
#[verifier::external_body]
#[verifier::reject_recursive_types(T)]
pub struct ExMutex<T: ?Sized>(std::sync::Mutex<T>);

/// Calls `std::sync::Mutex::new`.
#[verifier::external_body]
fn new_cell(keys: KeyStore) -> std::sync::Mutex<KeyStore> {
    std::sync::Mutex::new(keys)
}

/// Calls `std::sync::Mutex::lock` and copies the store out of the guard.
/// `None` where the lock is poisoned. Nothing is claimed of the store that
/// comes back: another holder of the lock may have written it.
#[verifier::external_body]
fn read_cell(cell: &std::sync::Mutex<KeyStore>) -> Option<KeyStore> {
    match cell.lock() {
        Ok(guard) => Some(*guard),
        Err(_) => None,
    }
}

/// Calls `std::sync::Mutex::lock` and writes `keys` through the guard.
/// `false` where the lock is poisoned, and nothing is written then.
#[verifier::external_body]
fn write_cell(cell: &std::sync::Mutex<KeyStore>, keys: KeyStore) -> bool {
    match cell.lock() {
        Ok(mut guard) => {
            *guard = keys;
            true
        },
        Err(_) => false,
    }
}

/// A key store that is reached through a lock only.
pub struct GuardedKeyStore {
    cell: std::sync::Mutex<KeyStore>,
}

/// What a failed lock turns an answer into.
pub open spec fn under_lock<T>(taken: bool, answer: Result<T, EncryptionError>) -> Result<T, EncryptionError> {
    if taken {
        answer
    } else {
        Err(EncryptionError::KeyLockFailed)
    }
}

impl GuardedKeyStore {
    /// Puts a store behind a lock.
    pub fn new(keys: KeyStore) -> GuardedKeyStore {
        GuardedKeyStore { cell: new_cell(keys) }
    }

    /// The store as it is at this moment, for the length of one operation.
    pub fn snapshot(&self) -> (keys: Result<KeyStore, EncryptionError>)
        ensures
            keys matches Err(e) ==> e == EncryptionError::KeyLockFailed,
    {
        interpret_read(read_cell(&self.cell))
    }

    /// Writes a store in place of the guarded one. The lock is held for the
    /// write alone. Where it cannot be taken nothing is written and the
    /// attempt ends in `KeyLockFailed`, as `write_outcome` lays down; what a
    /// later snapshot sees is for whoever writes next to decide.
    pub fn replace(&self, keys: KeyStore) -> (written: Result<(), EncryptionError>)
        ensures
            written matches Err(e) ==> e == EncryptionError::KeyLockFailed,
    {
        interpret_write(write_cell(&self.cell, keys))
    }

    /// Derives the key of `password` and stores it in place of any earlier
    /// one. The store that is handed to the lock is the one that
    /// `set_encryption_key` makes of an empty store, so it holds
    /// `derived_key` of the password and nothing else; whether it was
    /// written is what the result says, in the way of `replace`. The
    /// password is digested before the lock is taken.
    pub fn set_key(&self, password: String) -> (written: Result<(), EncryptionError>)
        requires
            digestible(password@),
        ensures
            written matches Err(e) ==> e == EncryptionError::KeyLockFailed,
    {
        let mut keys = KeyStore::new();
        set_encryption_key(&mut keys, password);
        self.replace(keys)
    }

    /// Whether a key is stored.
    pub fn is_key_set(&self) -> (set: Result<bool, EncryptionError>)
        ensures
            set matches Err(e) ==> e == EncryptionError::KeyLockFailed,
    {
        is_key_set_in(self.snapshot())
    }

    /// Removes the key; without one this changes nothing. The store that
    /// is handed to the lock is the empty one of `KeyStore::new`; whether
    /// it was written is what the result says, in the way of `replace`. A
    /// later `snapshot` that sees this write finds no key.
    pub fn clear_key(&self) -> (written: Result<(), EncryptionError>)
        ensures
            written matches Err(e) ==> e == EncryptionError::KeyLockFailed,
    {
        self.replace(KeyStore::new())
    }

    /// Checks `password` against the key stored at this moment: the answer
    /// is that of `verify_password` on some store, or `KeyLockFailed`.
    pub fn verify_password(&self, password: String) -> (verdict: Result<bool, EncryptionError>)
        requires
            digestible(password@),
        ensures
            exists|taken: bool, stored: Option<Seq<u8>>|
                verdict == #[trigger] under_lock(taken, password_check(stored, password@)),
    {
        match self.snapshot() {
            Ok(keys) => {
                let verdict = verify_password(&keys, password);
                assert(verdict == under_lock(true, password_check(keys@, password@)));
                verdict
            },
            Err(e) => {
                assert(Err::<bool, EncryptionError>(e) == under_lock(
                    false,
                    password_check(None, password@),
                ));
                Err(e)
            },
        }
    }
}

/// What an attempt to read through the lock comes to: the store that was
/// read, or `KeyLockFailed` where the lock was not to be had.
pub open spec fn read_outcome(read: Option<KeyStore>) -> Result<KeyStore, EncryptionError> {
    match read {
        Some(keys) => Ok(keys),
        None => Err(EncryptionError::KeyLockFailed),
    }
}

/// What an attempt to write through the lock comes to: done, or
/// `KeyLockFailed` where the lock was not to be had.
pub open spec fn write_outcome(written: bool) -> Result<(), EncryptionError> {
    if written {
        Ok(())
    } else {
        Err(EncryptionError::KeyLockFailed)
    }
}

/// Whether a key is set in what a snapshot gave; a failed snapshot fails the
/// question in the same way.
pub open spec fn key_set_outcome(snapshot: Result<KeyStore, EncryptionError>) -> Result<bool, EncryptionError> {
    match snapshot {
        Ok(keys) => Ok(keys@ is Some),
        Err(e) => Err(e),
    }
}

/// Turns what came back from reading through the lock into a result.
pub fn interpret_read(read: Option<KeyStore>) -> (keys: Result<KeyStore, EncryptionError>)
    ensures
        keys == read_outcome(read),
{
    match read {
        Some(keys) => Ok(keys),
        None => Err(EncryptionError::KeyLockFailed),
    }
}

/// Turns what came back from writing through the lock into a result.
pub fn interpret_write(written: bool) -> (done: Result<(), EncryptionError>)
    ensures
        done == write_outcome(written),
{
    if written {
        Ok(())
    } else {
        Err(EncryptionError::KeyLockFailed)
    }
}

/// Answers from a snapshot whether a key is set.
pub fn is_key_set_in(snapshot: Result<KeyStore, EncryptionError>) -> (set: Result<bool, EncryptionError>)
    ensures
        set == key_set_outcome(snapshot),
{
    match snapshot {
        Ok(keys) => Ok(is_key_set(&keys)),
        Err(e) => Err(e),
    }
}

} // verus!
