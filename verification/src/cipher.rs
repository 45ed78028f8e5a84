//! The primitives taken from `ring`: SHA-256, AES-256-GCM sealing and
//! opening, and the system's random source. Nothing in this module is proved;
//! each contract restates what `ring` documents.

use vstd::prelude::*;

verus! {

/// Length of an AES-256 key in bytes.
pub const KEY_LEN: usize = 32;

/// Length of an AES-GCM nonce in bytes.
pub const NONCE_LEN: usize = 12;

/// Length of an AES-GCM authentication tag in bytes.
pub const TAG_LEN: usize = 16;

/// Largest input, in bytes, that `ring` digests without panicking: its bit
/// length must fit in 64 bits.
pub const MAX_DIGEST_INPUT: u64 = 0x1fff_ffff_ffff_ffff;

/// The SHA-256 digest of `data`, as `ring::digest::digest` computes it.
pub uninterp spec fn sha256_digest(data: Seq<u8>) -> Seq<u8>;

/// What `ring`'s AES-256-GCM leaves in the buffer when it seals `plaintext`
/// under `key` and `nonce` with no associated data: ciphertext followed by
/// tag, or `None` where `ring` refuses.
pub uninterp spec fn aes_256_gcm_sealed(key: Seq<u8>, nonce: Seq<u8>, plaintext: Seq<u8>) -> Option<Seq<u8>>;

/// What `ring`'s AES-256-GCM returns when it opens `sealed` (ciphertext
/// followed by tag) under `key` and `nonce` with no associated data: the
/// plaintext, or `None` where `ring` refuses.
pub uninterp spec fn aes_256_gcm_opened(key: Seq<u8>, nonce: Seq<u8>, sealed: Seq<u8>) -> Option<Seq<u8>>;

/// Calls `ring::digest::digest` with `SHA256`. The result is the named digest
/// of the input; `ring` panics on inputs whose bit length overflows 64 bits,
/// which the precondition excludes.
#[verifier::external_body]
pub(crate) fn sha256(data: &[u8]) -> (digest: [u8; 32])
    requires
        data@.len() <= MAX_DIGEST_INPUT,
    ensures
        digest@ == sha256_digest(data@),
{
    let computed = ring::digest::digest(&ring::digest::SHA256, data);
    let mut digest = [0u8; 32];
    digest.copy_from_slice(computed.as_ref());
    digest
}

/// Calls `ring::aead::LessSafeKey::seal_in_place_append_tag` on a copy of
/// `plaintext`, with an AES-256-GCM key made from `key`, the given nonce and
/// empty associated data. Claims: the outcome is the named sealing; sealing
/// keeps the length and appends a 16-byte tag; and what was sealed opens,
/// under the same key and nonce, to the plaintext again. The last claim is
/// that of the algorithm, which `ring` implements; no sentence of its
/// documentation says it.
#[verifier::external_body]
pub(crate) fn seal(key: &[u8; 32], nonce: &[u8; 12], plaintext: &[u8]) -> (sealed: Option<Vec<u8>>)
    ensures
        sealed matches Some(c) ==> aes_256_gcm_sealed(key@, nonce@, plaintext@) == Some(c@),
        sealed is None ==> aes_256_gcm_sealed(key@, nonce@, plaintext@) is None,
        sealed matches Some(c) ==> c@.len() == plaintext@.len() + TAG_LEN,
        sealed matches Some(c) ==> aes_256_gcm_opened(key@, nonce@, c@) == Some(plaintext@),
{
    let unbound = ring::aead::UnboundKey::new(&ring::aead::AES_256_GCM, key).ok()?;
    let nonce = ring::aead::Nonce::assume_unique_for_key(*nonce);
    let mut in_out = plaintext.to_vec();
    ring::aead::LessSafeKey::new(unbound)
        .seal_in_place_append_tag(nonce, ring::aead::Aad::empty(), &mut in_out)
        .ok()?;
    Some(in_out)
}

/// Calls `ring::aead::LessSafeKey::open_in_place` on a copy of `sealed`, with
/// an AES-256-GCM key made from `key`, the given nonce and empty associated
/// data. The outcome is the named opening; a plaintext is what was sealed
/// without its 16-byte tag, so it is that much shorter.
#[verifier::external_body]
pub(crate) fn open(key: &[u8; 32], nonce: &[u8; 12], sealed: &[u8]) -> (opened: Option<Vec<u8>>)
    ensures
        opened matches Some(p) ==> aes_256_gcm_opened(key@, nonce@, sealed@) == Some(p@),
        opened is None ==> aes_256_gcm_opened(key@, nonce@, sealed@) is None,
        opened matches Some(p) ==> p@.len() + TAG_LEN == sealed@.len(),
{
    let unbound = ring::aead::UnboundKey::new(&ring::aead::AES_256_GCM, key).ok()?;
    let nonce = ring::aead::Nonce::assume_unique_for_key(*nonce);
    let mut in_out = sealed.to_vec();
    let plaintext = ring::aead::LessSafeKey::new(unbound)
        .open_in_place(nonce, ring::aead::Aad::empty(), &mut in_out)
        .ok()?;
    Some(plaintext.to_vec())
}

/// Calls `ring::rand::SecureRandom::fill` on `ring::rand::SystemRandom` for
/// twelve bytes. Nothing is claimed of the bytes; `None` where the random
/// source fails.
#[verifier::external_body]
pub(crate) fn fresh_nonce() -> (nonce: Option<[u8; 12]>)
{
    let mut nonce = [0u8; 12];
    ring::rand::SecureRandom::fill(&ring::rand::SystemRandom::new(), &mut nonce).ok()?;
    Some(nonce)
}

} // verus!
