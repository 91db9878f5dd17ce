//! Verified core of the Ombracrypt quantum vault: nonce derivation, key
//! synthesis, the hybrid KEM combiner, the vault and key-file formats and the
//! chunked AEAD stream.

pub mod crypto;
pub mod deception;
pub mod error;
pub mod format;
pub mod pipeline;
pub mod primitives;
pub mod stream;
