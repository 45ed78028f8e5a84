//! The holder of the active symmetric key.
//!
//! A `KeyStore` is an owned value, so that what an operation does to the key
//! can be stated exactly. The lock that lets several tasks share one store
//! is in `guard`.

use vstd::prelude::*;
use vstd::utf8::encode_utf8;
use crate::cipher::{sha256, sha256_digest, MAX_DIGEST_INPUT};
use crate::error::EncryptionError;

verus! {

/// The key that a password stands for: the SHA-256 digest of its UTF-8 bytes.
pub open spec fn derived_key(password: Seq<char>) -> Seq<u8> {
    sha256_digest(encode_utf8(password))
}

/// Whether a password is short enough to be digested.
pub open spec fn digestible(password: Seq<char>) -> bool {
    encode_utf8(password).len() <= MAX_DIGEST_INPUT
}

/// Zero or one 32-byte secret.
#[derive(Clone, Copy)]
pub struct KeyStore {
    key: Option<[u8; 32]>,
}

impl View for KeyStore {
    type V = Option<Seq<u8>>;

    closed spec fn view(&self) -> Option<Seq<u8>> {
        match self.key {
            Some(key) => Some(key@),
            None => None,
        }
    }
}

impl KeyStore {
    /// A store that holds no key.
    pub fn new() -> (keys: KeyStore)
        ensures
            keys@ is None,
    {
        KeyStore { key: None }
    }

    /// A store that holds `key`, for a key that was derived elsewhere.
    pub fn from_key(key: [u8; 32]) -> (keys: KeyStore)
        ensures
            keys@ == Some(key@),
    {
        KeyStore { key: Some(key) }
    }

    /// A copy of the key for the length of one cryptographic call.
    pub(crate) fn current(&self) -> (key: Option<[u8; 32]>)
        ensures
            key matches Some(k) ==> self@ == Some(k@),
            key is None ==> self@ is None,
    {
        self.key
    }

    /// A stored key is always 32 bytes long.
    pub proof fn key_length(&self)
        ensures
            self@ matches Some(k) ==> k.len() == 32,
    {
    }
}

/// Tells whether `password` is short enough to be digested. Every password
/// that fits in memory today is; the bound is that of the digest, whose input
/// length in bits must fit in 64 bits.
pub fn is_digestible(password: &str) -> (fits: bool)
    ensures
        fits == digestible(password@),
{
    password.as_bytes().len() as u64 <= MAX_DIGEST_INPUT
}

/// Derives the key for `password`.
pub fn derive_key(password: &str) -> (key: [u8; 32])
    requires
        digestible(password@),
    ensures
        key@ == derived_key(password@),
{
    sha256(password.as_bytes())
}

/// Whether two keys hold the same bytes.
pub fn same_key(left: &[u8; 32], right: &[u8; 32]) -> (same: bool)
    ensures
        same == (left@ == right@),
{
    let mut i: usize = 0;
    while i < 32
        invariant
            i <= 32,
            forall|j: int| 0 <= j < i ==> left@[j] == right@[j],
        decreases 32 - i,
    {
        if left[i] != right[i] {
            return false;
        }
        i += 1;
    }
    assert(left@ =~= right@);
    true
}

/// Stores the key derived from `password`, replacing any earlier one.
pub fn set_encryption_key(keys: &mut KeyStore, password: String)
    requires
        digestible(password@),
    ensures
        final(keys)@ == Some(derived_key(password@)),
{
    keys.key = Some(derive_key(password.as_str()));
}

/// Whether a key is stored.
pub fn is_key_set(keys: &KeyStore) -> (set: bool)
    ensures
        set == (keys@ is Some),
{
    keys.key.is_some()
}

/// Removes the key; a store without one is left as it is.
pub fn clear_encryption_key(keys: &mut KeyStore)
    ensures
        final(keys)@ is None,
{
    keys.key = None;
}

/// What checking `password` against a store yields.
pub open spec fn password_check(stored: Option<Seq<u8>>, password: Seq<char>) -> Result<bool, EncryptionError> {
    match stored {
        None => Err(EncryptionError::NoKey),
        Some(key) => Ok(derived_key(password) == key),
    }
}

/// Derives the key of `password` again and compares it with the stored one.
/// A mismatch is `Ok(false)`, not an error.
pub fn verify_password(keys: &KeyStore, password: String) -> (verdict: Result<bool, EncryptionError>)
    requires
        digestible(password@),
    ensures
        verdict == password_check(keys@, password@),
{
    let provided = derive_key(password.as_str());
    match keys.key {
        None => Err(EncryptionError::NoKey),
        Some(current) => Ok(same_key(&provided, &current)),
    }
}

} // verus!
