use vstd::prelude::*;

use crate::primitives::Argon2Failure;

verus! {

/// The field of the vault header that the vault file ended before.
#[derive(Clone, Copy, Debug, PartialEq, Eq, Structural)]
pub enum HeaderField {
    /// The cipher and KEM identifier bytes.
    Identifiers,
    Salt,
    NonceLength,
    Nonce,
    CiphertextLength,
    Ciphertext,
}

/// Why a vault could not be sealed or opened.
#[derive(Clone, Copy, Debug, PartialEq, Eq, Structural)]
pub enum VaultError {
    /// Argon2 refused to derive the key from the master password.
    KeyDerivation(Argon2Failure),
    /// Argon2 refused to hash the deception passcode into the phantom block.
    PhantomDerivation(Argon2Failure),
    /// The combined secret key or ciphertext is shorter than its X25519 part.
    PayloadTooShort,
    /// The Kyber secret key in the key file has the wrong length.
    InvalidKeyFile,
    /// The Kyber ciphertext in the vault header has the wrong length.
    CompromisedHeader,
    /// The key file is too short to hold the phantom block.
    CorruptKeyFile,
    /// The vault file ends inside its header.
    TruncatedHeader(HeaderField),
    /// The vault file ends before its final chunk, or inside a chunk.
    TruncatedVault,
    /// A chunk failed authentication: wrong key or tampered data.  The duress
    /// trapdoor answers with this same error.
    DecryptionFailed,
}

} // verus!
