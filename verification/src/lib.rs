//! Encryption at rest for a clipboard history: the key store, the field
//! codec, the per-record transformer, and the decision logic of the bulk
//! decryption pass and of key rotation.

pub mod error;
pub mod cipher;
pub mod keystore;
pub mod guard;
pub mod encoding;
pub mod codec;
pub mod record;
pub mod transform;
pub mod bulk;
pub mod rotation;
pub mod rounding;
pub mod thumbnail;
