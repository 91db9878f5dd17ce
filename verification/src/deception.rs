//! The duress trapdoor: the noise that overwrites the key file once the
//! deception passcode has been entered, and the answer given afterwards.

use vstd::prelude::*;

use crate::error::VaultError;
use crate::primitives::fill_random;

verus! {

/// Cryptographically secure random noise of the key file's size, written
/// over the whole key file so that its Kyber and X25519 secret keys are
/// destroyed.
pub fn scramble_noise(size: usize) -> (noise: Vec<u8>)
    ensures
        noise@.len() == size,
{
    let mut noise: Vec<u8> = vec![0u8; size];
    fill_random(noise.as_mut_slice());
    noise
}

/// What a sprung trapdoor answers: the very error that `open_chunk` gives
/// when a chunk fails authentication under a wrong key, so that the duress
/// unlock cannot be told apart from a mistyped password.
pub fn duress_response() -> (e: VaultError)
    ensures
        e == VaultError::DecryptionFailed,
{
    VaultError::DecryptionFailed
}

} // verus!
