//! The field codec: authenticated encryption of raw bytes, and the base64
//! wrapping that lets ciphertext live in a text column.
//!
//! An encrypted blob is the 12-byte nonce followed by what AES-256-GCM sealed
//! (ciphertext, then the 16-byte tag).

use vstd::prelude::*;
use vstd::slice::slice_subrange;
use vstd::utf8::{decode_utf8, encode_utf8, encode_utf8_decode_utf8, encode_utf8_valid_utf8, valid_utf8};
use crate::cipher::{aes_256_gcm_opened, aes_256_gcm_sealed, fresh_nonce, open, seal, NONCE_LEN, TAG_LEN};
use crate::encoding::{base64_decode, base64_decoded, base64_encodable, base64_encode, base64_encoded, string_from_utf8};
use crate::error::EncryptionError;
use crate::keystore::KeyStore;

verus! {

/// The outcome of an operation that yields bytes, over sequences.
pub open spec fn bytes_outcome(result: Result<Vec<u8>, EncryptionError>) -> Result<Seq<u8>, EncryptionError> {
    match result {
        Ok(bytes) => Ok(bytes@),
        Err(e) => Err(e),
    }
}

/// The outcome of an operation that yields text, over sequences.
pub open spec fn text_outcome(result: Result<String, EncryptionError>) -> Result<Seq<char>, EncryptionError> {
    match result {
        Ok(text) => Ok(text@),
        Err(e) => Err(e),
    }
}

/// The nonce that leads a blob.
pub open spec fn nonce_of(blob: Seq<u8>) -> Seq<u8> {
    blob.subrange(0, NONCE_LEN as int)
}

/// What follows the nonce in a blob.
pub open spec fn sealed_of(blob: Seq<u8>) -> Seq<u8> {
    blob.subrange(NONCE_LEN as int, blob.len() as int)
}

/// Whether a blob has the structure of ciphertext: room for a nonce and a
/// tag. A diagnostic that picks an error label; it decides nothing else.
pub open spec fn looks_encrypted(blob: Seq<u8>) -> bool {
    blob.len() >= NONCE_LEN + TAG_LEN
}

/// The error reported for a blob that the cipher refused to open.
pub open spec fn refusal(blob: Seq<u8>) -> EncryptionError {
    if looks_encrypted(blob) {
        EncryptionError::InvalidKey
    } else {
        EncryptionError::NotEncrypted
    }
}

/// What decrypting `blob` under `key` yields.
pub open spec fn decrypted(key: Option<Seq<u8>>, blob: Seq<u8>) -> Result<Seq<u8>, EncryptionError> {
    if blob.len() < NONCE_LEN {
        Err(EncryptionError::NotEncrypted)
    } else {
        match key {
            None => Err(EncryptionError::NoKey),
            Some(k) => match aes_256_gcm_opened(k, nonce_of(blob), sealed_of(blob)) {
                Some(plain) => Ok(plain),
                None => Err(refusal(blob)),
            },
        }
    }
}

/// What encrypting `plain` under `key` with the nonce `nonce` yields.
pub open spec fn encrypted_with(key: Option<Seq<u8>>, nonce: Seq<u8>, plain: Seq<u8>) -> Result<Seq<u8>, EncryptionError> {
    match key {
        None => Err(EncryptionError::NoKey),
        Some(k) => match aes_256_gcm_sealed(k, nonce, plain) {
            Some(sealed) => Ok(nonce + sealed),
            None => Err(EncryptionError::EncryptionFailed),
        },
    }
}

/// Judges by structure alone whether `data` could be ciphertext.
pub fn looks_like_encrypted_data(data: &[u8]) -> (plausible: bool)
    ensures
        plausible == looks_encrypted(data@),
{
    data.len() >= NONCE_LEN + TAG_LEN
}

/// Copies the nonce off the front of a blob.
fn leading_nonce(blob: &[u8]) -> (nonce: [u8; 12])
    requires
        blob@.len() >= NONCE_LEN,
    ensures
        nonce@ == nonce_of(blob@),
{
    let mut nonce: [u8; 12] = [0u8; 12];
    let mut i: usize = 0;
    while i < 12
        invariant
            i <= 12,
            blob@.len() >= 12,
            forall|j: int| 0 <= j < i ==> nonce@[j] == blob@[j],
        decreases 12 - i,
    {
        nonce[i] = blob[i];
        i += 1;
    }
    assert(nonce@ =~= nonce_of(blob@));
    nonce
}

/// Turns what the cipher returned for `blob` into the result of decryption:
/// the plaintext, or the label that the blob's structure suggests.
pub fn classify_opening(blob: &[u8], opened: Option<Vec<u8>>) -> (result: Result<Vec<u8>, EncryptionError>)
    ensures
        opened matches Some(plain) ==> result == Ok::<Vec<u8>, EncryptionError>(plain),
        opened is None ==> result == Err::<Vec<u8>, EncryptionError>(refusal(blob@)),
{
    match opened {
        Some(plain) => Ok(plain),
        None => {
            if looks_like_encrypted_data(blob) {
                Err(EncryptionError::InvalidKey)
            } else {
                Err(EncryptionError::NotEncrypted)
            }
        },
    }
}

/// Decrypts a blob with the stored key. The length is judged before the key
/// is looked at. A blob that decrypts is longer than its plaintext by the
/// nonce and the tag.
pub fn decrypt_data(keys: &KeyStore, encrypted_data: &[u8]) -> (result: Result<Vec<u8>, EncryptionError>)
    ensures
        bytes_outcome(result) == decrypted(keys@, encrypted_data@),
        encrypted_data@.len() < NONCE_LEN ==> result == Err::<Vec<u8>, EncryptionError>(
            EncryptionError::NotEncrypted,
        ),
        result matches Ok(plain) ==> encrypted_data@.len() == plain@.len() + NONCE_LEN + TAG_LEN,
{
    if encrypted_data.len() < NONCE_LEN {
        return Err(EncryptionError::NotEncrypted);
    }
    let key = match keys.current() {
        Some(key) => key,
        None => {
            return Err(EncryptionError::NoKey);
        },
    };
    let nonce = leading_nonce(encrypted_data);
    let sealed = slice_subrange(encrypted_data, NONCE_LEN, encrypted_data.len());
    let opened = open(&key, &nonce, sealed);
    classify_opening(encrypted_data, opened)
}

/// Puts the nonce in front of what the cipher sealed under it.
pub fn frame_sealed(nonce: &[u8; 12], sealed: Option<Vec<u8>>) -> (result: Result<Vec<u8>, EncryptionError>)
    ensures
        sealed matches Some(s) ==> bytes_outcome(result) == Ok::<Seq<u8>, EncryptionError>(nonce@ + s@),
        sealed is None ==> result == Err::<Vec<u8>, EncryptionError>(EncryptionError::EncryptionFailed),
{
    match sealed {
        None => Err(EncryptionError::EncryptionFailed),
        Some(sealed) => {
            let mut blob: Vec<u8> = Vec::new();
            let mut i: usize = 0;
            while i < 12
                invariant
                    i <= 12,
                    blob@ == nonce@.subrange(0, i as int),
                decreases 12 - i,
            {
                blob.push(nonce[i]);
                assert(blob@ =~= nonce@.subrange(0, i + 1));
                i += 1;
            }
            assert(nonce@.subrange(0, 12) =~= nonce@);
            let mut sealed = sealed;
            blob.append(&mut sealed);
            Ok(blob)
        },
    }
}

/// Encrypts `data` with the stored key under the given nonce.
pub fn encrypt_data_with_nonce(keys: &KeyStore, nonce: &[u8; 12], data: &[u8]) -> (result: Result<Vec<u8>, EncryptionError>)
    ensures
        bytes_outcome(result) == encrypted_with(keys@, nonce@, data@),
        result matches Ok(blob) ==> nonce_of(blob@) == nonce@ && is_encryption_of(keys@, blob@, data@),
{
    let key = match keys.current() {
        Some(key) => key,
        None => {
            return Err(EncryptionError::NoKey);
        },
    };
    let sealed = seal(&key, nonce, data);
    let result = frame_sealed(nonce, sealed);
    proof {
        if result is Ok {
            let blob = result->Ok_0;
            let s = aes_256_gcm_sealed(key@, nonce@, data@)->0;
            assert(nonce_of(blob@) =~= nonce@);
            assert(sealed_of(blob@) =~= s);
        }
    }
    result
}

/// Encrypts `data` with the stored key under a fresh random nonce. Whatever
/// nonce was drawn, the blob decrypts under the same key to `data` again.
pub fn encrypt_data(keys: &KeyStore, data: &[u8]) -> (result: Result<Vec<u8>, EncryptionError>)
    ensures
        keys@ is None ==> result == Err::<Vec<u8>, EncryptionError>(EncryptionError::NoKey),
        keys@ is Some ==> result is Ok || result == Err::<Vec<u8>, EncryptionError>(
            EncryptionError::EncryptionFailed,
        ),
        result matches Ok(blob) ==> is_encryption_of(keys@, blob@, data@),
{
    if keys.current().is_none() {
        return Err(EncryptionError::NoKey);
    }
    match fresh_nonce() {
        None => Err(EncryptionError::EncryptionFailed),
        Some(nonce) => encrypt_data_with_nonce(keys, &nonce, data),
    }
}

/// Short-input rejection: a blob too short to hold a nonce is reported as
/// not encrypted, whatever the key and whether or not one is set.
pub proof fn lemma_short_input_rejected(key: Option<Seq<u8>>, blob: Seq<u8>)
    requires
        blob.len() < NONCE_LEN,
    ensures
        decrypted(key, blob) == Err::<Seq<u8>, EncryptionError>(EncryptionError::NotEncrypted),
{
}

/// Wrong-key detection. What was encrypted under one key and is decrypted
/// under another, under which the cipher does not authenticate it, is
/// reported as `InvalidKey`: it has room for a nonce and a tag, so it is never
/// taken for plaintext.
pub proof fn lemma_wrong_key_detected(key: Seq<u8>, other: Seq<u8>, plain: Seq<u8>, blob: Seq<u8>)
    requires
        is_encryption_of(Some(key), blob, plain),
        other != key,
        aes_256_gcm_opened(other, nonce_of(blob), sealed_of(blob)) is None,
    ensures
        decrypted(Some(other), blob) == Err::<Seq<u8>, EncryptionError>(EncryptionError::InvalidKey),
{
}

/// No plaintext comes out silently: decryption yields bytes only where a key
/// is set and the cipher has authenticated the blob under it, and then it
/// yields what the cipher returned.
pub proof fn lemma_plaintext_is_authenticated(key: Option<Seq<u8>>, blob: Seq<u8>, plain: Seq<u8>)
    requires
        decrypted(key, blob) == Ok::<Seq<u8>, EncryptionError>(plain),
    ensures
        blob.len() >= NONCE_LEN,
        key matches Some(k) && aes_256_gcm_opened(k, nonce_of(blob), sealed_of(blob)) == Some(plain),
{
}

/// Whether `blob` is an encryption of `plain` under `key`: a nonce followed by
/// what the cipher seals under that nonce, as long as the plaintext and nonce
/// and tag together, and such that decryption under `key` leads back.
pub open spec fn is_encryption_of(key: Option<Seq<u8>>, blob: Seq<u8>, plain: Seq<u8>) -> bool {
    &&& blob.len() == plain.len() + NONCE_LEN + TAG_LEN
    &&& encrypted_with(key, nonce_of(blob), plain) == Ok::<Seq<u8>, EncryptionError>(blob)
    &&& decrypted(key, blob) == Ok::<Seq<u8>, EncryptionError>(plain)
}

/// The text that plaintext bytes stand for.
pub open spec fn plain_text(plain: Seq<u8>) -> Result<Seq<char>, EncryptionError> {
    if valid_utf8(plain) {
        Ok(decode_utf8(plain))
    } else {
        Err(EncryptionError::DecryptionFailed)
    }
}

/// What decrypting the outcome of a base64 decoding yields.
pub open spec fn decrypted_decoded(key: Option<Seq<u8>>, decoded: Option<Seq<u8>>) -> Result<Seq<u8>, EncryptionError> {
    match decoded {
        None => Err(EncryptionError::DecryptionFailed),
        Some(blob) => decrypted(key, blob),
    }
}

/// What decoding an encrypted text field yields: base64, then the cipher,
/// then UTF-8.
pub open spec fn decrypted_text(key: Option<Seq<u8>>, text: Seq<char>) -> Result<Seq<char>, EncryptionError> {
    match decrypted_decoded(key, base64_decoded(text)) {
        Err(e) => Err(e),
        Ok(plain) => plain_text(plain),
    }
}

/// The base64 text of bytes, where their length lets it be written.
pub open spec fn wrapped(bytes: Seq<u8>, otherwise: EncryptionError) -> Result<Seq<char>, EncryptionError> {
    if base64_encodable(bytes.len()) {
        Ok(base64_encoded(bytes))
    } else {
        Err(otherwise)
    }
}

/// What decoding an encrypted thumbnail yields: base64, then the cipher, then
/// base64 again, because a thumbnail stays text in either state.
pub open spec fn decrypted_thumbnail(key: Option<Seq<u8>>, text: Seq<char>) -> Result<Seq<char>, EncryptionError> {
    match decrypted_decoded(key, base64_decoded(text)) {
        Err(e) => Err(e),
        Ok(plain) => wrapped(plain, EncryptionError::DecryptionFailed),
    }
}

/// The outcome of encrypting plaintext bytes into a text field: an error, or
/// the base64 text of an encryption of them, from which decoding leads back
/// to that encryption.
pub open spec fn is_encrypted_text(key: Option<Seq<u8>>, plain: Seq<u8>, result: Result<Seq<char>, EncryptionError>) -> bool {
    match result {
        Ok(text) => {
            &&& base64_decoded(text) matches Some(blob)
            &&& is_encryption_of(key, blob, plain)
            &&& text == base64_encoded(blob)
            &&& base64_encodable(blob.len())
        },
        Err(e) => {
            ||| e == EncryptionError::NoKey && key is None
            ||| e == EncryptionError::EncryptionFailed && key is Some
        },
    }
}

/// Round trip of a text field: the field that encrypting `text` gave
/// decrypts to `text`.
pub proof fn lemma_text_round_trip(key: Option<Seq<u8>>, text: Seq<char>, sealed: Seq<char>)
    requires
        is_encrypted_text(key, encode_utf8(text), Ok(sealed)),
    ensures
        decrypted_text(key, sealed) == Ok::<Seq<char>, EncryptionError>(text),
{
    encode_utf8_valid_utf8(text);
    encode_utf8_decode_utf8(text);
}

/// Round trip of a thumbnail: the field that encrypting the bytes `raw` gave
/// decrypts to the base64 text of `raw`.
pub proof fn lemma_thumbnail_round_trip(key: Option<Seq<u8>>, raw: Seq<u8>, sealed: Seq<char>)
    requires
        is_encrypted_text(key, raw, Ok(sealed)),
    ensures
        decrypted_thumbnail(key, sealed) == Ok::<Seq<char>, EncryptionError>(base64_encoded(raw)),
{
    let blob = base64_decoded(sealed)->0;
    assert(raw.len() / 3 <= blob.len() / 3);
}

/// Reads plaintext bytes as UTF-8 text.
pub fn text_from_plain(plain: Vec<u8>) -> (result: Result<String, EncryptionError>)
    ensures
        text_outcome(result) == plain_text(plain@),
{
    match string_from_utf8(plain) {
        Some(text) => {
            proof {
                encode_utf8_decode_utf8(text@);
            }
            Ok(text)
        },
        None => Err(EncryptionError::DecryptionFailed),
    }
}

/// Writes bytes as base64 text, or fails with `otherwise` where the text
/// would be longer than this machine can address.
pub fn wrap_bytes(bytes: &[u8], otherwise: EncryptionError) -> (result: Result<String, EncryptionError>)
    ensures
        text_outcome(result) == wrapped(bytes@, otherwise),
        result matches Ok(text) ==> base64_decoded(text@) == Some(bytes@),
{
    if bytes.len() / 3 < usize::MAX / 4 {
        Ok(base64_encode(bytes))
    } else {
        Err(otherwise)
    }
}

/// Decrypts what a base64 decoding gave: a text that was no base64 is a
/// decoding failure.
pub fn decrypt_decoded(keys: &KeyStore, decoded: Option<Vec<u8>>) -> (result: Result<Vec<u8>, EncryptionError>)
    ensures
        bytes_outcome(result) == decrypted_decoded(
            keys@,
            match decoded {
                Some(blob) => Some(blob@),
                None => None,
            },
        ),
{
    match decoded {
        None => Err(EncryptionError::DecryptionFailed),
        Some(blob) => decrypt_data(keys, blob.as_slice()),
    }
}

/// Decrypts a text field: base64, then the cipher, then UTF-8.
pub fn decrypt_text(keys: &KeyStore, text: &str) -> (result: Result<String, EncryptionError>)
    ensures
        text_outcome(result) == decrypted_text(keys@, text@),
{
    match decrypt_decoded(keys, base64_decode(text)) {
        Err(e) => Err(e),
        Ok(plain) => text_from_plain(plain),
    }
}

/// Decrypts a thumbnail: base64, then the cipher, then base64 again.
pub fn decrypt_thumbnail(keys: &KeyStore, text: &str) -> (result: Result<String, EncryptionError>)
    ensures
        text_outcome(result) == decrypted_thumbnail(keys@, text@),
{
    match decrypt_decoded(keys, base64_decode(text)) {
        Err(e) => Err(e),
        Ok(plain) => wrap_bytes(plain.as_slice(), EncryptionError::DecryptionFailed),
    }
}

/// Encrypts plaintext bytes into a text field: the cipher, then base64.
pub fn encrypt_to_text(keys: &KeyStore, plain: &[u8]) -> (result: Result<String, EncryptionError>)
    ensures
        is_encrypted_text(keys@, plain@, text_outcome(result)),
{
    match encrypt_data(keys, plain) {
        Err(e) => Err(e),
        Ok(blob) => wrap_bytes(blob.as_slice(), EncryptionError::EncryptionFailed),
    }
}

/// Encrypts a text field: UTF-8, then the cipher, then base64.
pub fn encrypt_text(keys: &KeyStore, text: &str) -> (result: Result<String, EncryptionError>)
    ensures
        is_encrypted_text(keys@, encode_utf8(text@), text_outcome(result)),
        result matches Ok(sealed) ==> decrypted_text(keys@, sealed@) == Ok::<Seq<char>, EncryptionError>(text@),
{
    let result = encrypt_to_text(keys, text.as_bytes());
    proof {
        if result is Ok {
            lemma_text_round_trip(keys@, text@, result->Ok_0@);
        }
    }
    result
}

} // verus!
