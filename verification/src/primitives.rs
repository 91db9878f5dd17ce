//! The calls into the outside cryptographic crates.  Every item in this file
//! is trusted: its contract is read off the outside crate's source and is not
//! proved.  Everything else in the crate is verified against these contracts.

use vstd::prelude::*;

use aes_gcm::aead::{Aead, KeyInit, Payload};
use aes_gcm::{Aes256Gcm, Nonce as AesNonce};
use argon2::Argon2;
use chacha20poly1305::{XChaCha20Poly1305, XNonce};
use pqcrypto_kyber::{kyber1024, kyber768};
use pqcrypto_traits::kem::{Ciphertext as _, SecretKey as _, SharedSecret as _};
use rand::rngs::OsRng;
use rand::RngCore;
use sha2::{Digest, Sha256};
use x25519_dalek::{PublicKey, StaticSecret};
use zeroize::Zeroizing;

verus! {

/// Longest password and salt that Argon2 accepts (`argon2::MAX_PWD_LEN`,
/// `argon2::MAX_SALT_LEN`).
pub const ARGON2_MAX_INPUT_LEN: usize = 0xFFFF_FFFF;

/// Shortest salt that Argon2 accepts (`argon2::MIN_SALT_LEN`).
pub const ARGON2_MIN_SALT_LEN: usize = 8;

/// Length of every key that the library derives or synthesises.
pub const KEY_LEN: usize = 32;

/// Longest message, ciphertext or associated data handed to either AEAD
/// cipher: far below the limits of both (2^36 bytes for AES-256-GCM, about
/// 2^38 for XChaCha20-Poly1305), and the most a chunk frame's u32 length can
/// announce.
pub const AEAD_MAX_LEN: usize = 0xFFFF_FFFF;

/// Length of the authentication tag that both AEAD ciphers append.
pub const AEAD_TAG_LEN: usize = 16;

/// Secret key, ciphertext and shared secret lengths of Kyber-1024 and
/// Kyber-768 (the `PQCLEAN_KYBER*_CLEAN_CRYPTO_*` constants of
/// `pqcrypto_kyber`).
pub const KYBER1024_SECRET_KEY_LEN: usize = 3168;
pub const KYBER1024_CIPHERTEXT_LEN: usize = 1568;
pub const KYBER768_SECRET_KEY_LEN: usize = 2400;
pub const KYBER768_CIPHERTEXT_LEN: usize = 1088;

/// Bytes held in a `zeroize::Zeroizing` buffer, so that they are
/// overwritten with zeros when dropped.  Verus does not accept a declaration
/// of `Zeroizing` itself (its parameter is bounded by the outside trait
/// `Zeroize`), so the buffer is kept in this struct, whose contents are named
/// `secret_bytes_content`.
#[verifier::external_body]
pub struct SecretBytes {
    inner: Zeroizing<Vec<u8>>,
}

/// A 32-byte key held in a `zeroize::Zeroizing` array, wiped when dropped;
/// its contents are named `secret_key_content`.
#[verifier::external_body]
pub struct SecretKey {
    inner: Zeroizing<[u8; 32]>,
}

/// The bytes a `SecretBytes` holds.
pub uninterp spec fn secret_bytes_content(s: SecretBytes) -> Seq<u8>;

/// The key a `SecretKey` holds.
pub uninterp spec fn secret_key_content(k: SecretKey) -> Seq<u8>;

impl View for SecretBytes {
    type V = Seq<u8>;

    open spec fn view(&self) -> Seq<u8> {
        secret_bytes_content(*self)
    }
}

impl View for SecretKey {
    type V = Seq<u8>;

    open spec fn view(&self) -> Seq<u8> {
        secret_key_content(*self)
    }
}

impl SecretBytes {
    /// `Zeroizing::new`: moves the buffer in unchanged.
    #[verifier::external_body]
    pub(crate) fn new(bytes: Vec<u8>) -> (s: SecretBytes)
        ensures
            secret_bytes_content(s) == bytes@,
    {
        SecretBytes { inner: Zeroizing::new(bytes) }
    }

    /// `Deref` of the `Zeroizing` buffer: the bytes it holds.
    #[verifier::external_body]
    pub fn as_slice(&self) -> (bytes: &[u8])
        ensures
            bytes@ == secret_bytes_content(*self),
    {
        self.inner.as_slice()
    }
}

impl SecretKey {
    /// `Zeroizing::new([0u8; 32])`: an all-zero key.
    #[verifier::external_body]
    pub(crate) fn zeroed() -> (k: SecretKey)
        ensures
            secret_key_content(k) == Seq::new(32, |i: int| 0u8),
    {
        SecretKey { inner: Zeroizing::new([0u8; 32]) }
    }

    /// `DerefMut` of the `Zeroizing` array, writing one byte.
    #[verifier::external_body]
    pub(crate) fn set(&mut self, index: usize, byte: u8)
        requires
            index < 32,
        ensures
            secret_key_content(*final(self)) == secret_key_content(*old(self)).update(index as int, byte),
    {
        self.inner[index] = byte;
    }

    /// `Deref` of the `Zeroizing` array: the key it holds.
    #[verifier::external_body]
    pub fn as_array(&self) -> (key: &[u8; 32])
        ensures
            key@ == secret_key_content(*self),
    {
        &self.inner
    }
}

/// The ways in which Argon2 refuses to hash a password with the default
/// parameters into a 32-byte output.
#[derive(Clone, Copy, Debug, PartialEq, Eq, Structural)]
pub enum Argon2Failure {
    PwdTooLong,
    SaltTooShort,
    SaltTooLong,
    /// Any other `argon2::Error`; the outside source shows none can arise here.
    Other,
}

/// Which input of a Kyber decapsulation had the wrong length.
#[derive(Clone, Copy, Debug, PartialEq, Eq, Structural)]
pub enum KyberInput {
    SecretKey,
    Ciphertext,
}

/// The output of `Argon2::default().hash_password_into` (Argon2id, version
/// 0x13, default costs) for the given password, salt and output length.
pub uninterp spec fn argon2id_default_hash(password: Seq<u8>, salt: Seq<u8>, out_len: nat) -> Seq<u8>;

/// The bytes of the X25519 public key of a secret key
/// (`PublicKey::from(&StaticSecret)`).
pub uninterp spec fn x25519_public(secret: Seq<u8>) -> Seq<u8>;

/// The bytes of the X25519 shared secret (`StaticSecret::diffie_hellman`).
pub uninterp spec fn x25519_shared(secret: Seq<u8>, public: Seq<u8>) -> Seq<u8>;

/// The Kyber-1024 shared secret that `kyber1024::decapsulate` recovers.
pub uninterp spec fn kyber1024_shared(ciphertext: Seq<u8>, secret_key: Seq<u8>) -> Seq<u8>;

/// The Kyber-768 shared secret that `kyber768::decapsulate` recovers.
pub uninterp spec fn kyber768_shared(ciphertext: Seq<u8>, secret_key: Seq<u8>) -> Seq<u8>;

/// The SHA-256 digest of a byte string.
pub uninterp spec fn sha256_digest(data: Seq<u8>) -> Seq<u8>;

/// The AES-256-GCM ciphertext with its tag appended (`Aes256Gcm::encrypt`).
pub uninterp spec fn aes256gcm_sealed(key: Seq<u8>, nonce: Seq<u8>, plaintext: Seq<u8>, aad: Seq<u8>) -> Seq<u8>;

/// The XChaCha20-Poly1305 ciphertext with its tag appended
/// (`XChaCha20Poly1305::encrypt`).
pub uninterp spec fn xchacha20poly1305_sealed(
    key: Seq<u8>,
    nonce: Seq<u8>,
    plaintext: Seq<u8>,
    aad: Seq<u8>,
) -> Seq<u8>;


/// What `Argon2::default().hash_password_into` gives for a 32-byte output:
/// it checks the password length, then the salt length, and otherwise hashes.
pub open spec fn argon2_outcome(password: Seq<u8>, salt: Seq<u8>) -> Result<Seq<u8>, Argon2Failure> {
    if password.len() > ARGON2_MAX_INPUT_LEN {
        Err(Argon2Failure::PwdTooLong)
    } else if salt.len() < ARGON2_MIN_SALT_LEN {
        Err(Argon2Failure::SaltTooShort)
    } else if salt.len() > ARGON2_MAX_INPUT_LEN {
        Err(Argon2Failure::SaltTooLong)
    } else {
        Ok(argon2id_default_hash(password, salt, KEY_LEN as nat))
    }
}

/// `OsRng.fill_bytes` (rand): overwrites the buffer with operating-system
/// randomness.  Only the length of the buffer is stated; the bytes are
/// random.  It panics if the operating system has no randomness to give.
#[verifier::external_body]
pub(crate) fn fill_random(buf: &mut [u8])
    ensures
        final(buf)@.len() == old(buf)@.len(),
{
    OsRng.fill_bytes(buf);
}

/// `Argon2::default().hash_password_into(password, salt, &mut out)` with a
/// 32-byte `out`.  The source validates the output length (32 is within
/// 4..=0xFFFFFFFF), then the password length, then the salt length, and
/// hashes otherwise; the hash is named `argon2id_default_hash`.
#[verifier::external_body]
pub(crate) fn argon2id_hash(password: &[u8], salt: &[u8]) -> (r: Result<SecretKey, Argon2Failure>)
    ensures
        r is Ok <==> argon2_outcome(password@, salt@) is Ok,
        r is Ok ==> secret_key_content(r->Ok_0) == argon2id_default_hash(password@, salt@, 32),
        r is Err ==> argon2_outcome(password@, salt@)->Err_0 == r->Err_0,
{
    let mut out = Zeroizing::new([0u8; 32]);
    match Argon2::default().hash_password_into(password, salt, &mut *out) {
        Ok(()) => Ok(SecretKey { inner: out }),
        Err(argon2::Error::PwdTooLong) => Err(Argon2Failure::PwdTooLong),
        Err(argon2::Error::SaltTooShort) => Err(Argon2Failure::SaltTooShort),
        Err(argon2::Error::SaltTooLong) => Err(Argon2Failure::SaltTooLong),
        Err(_) => Err(Argon2Failure::Other),
    }
}

/// `StaticSecret::random_from_rng(OsRng).to_bytes()` (x25519-dalek): 32
/// random bytes, kept unclamped as the crate keeps them, and held in a
/// `Zeroizing` array so that they are wiped when dropped.  Nothing is stated
/// of the bytes but their number.
#[verifier::external_body]
pub(crate) fn x25519_random_secret() -> (secret: SecretKey)
    ensures
        secret@.len() == 32,
{
    SecretKey { inner: Zeroizing::new(StaticSecret::random_from_rng(OsRng).to_bytes()) }
}

/// `PublicKey::from(&StaticSecret::from(secret)).to_bytes()`: the public
/// key of a secret key, named `x25519_public`.
#[verifier::external_body]
pub(crate) fn x25519_public_key(secret: &SecretKey) -> (public: [u8; 32])
    ensures
        public@ == x25519_public(secret@),
{
    PublicKey::from(&StaticSecret::from(*secret.inner)).to_bytes()
}

/// `StaticSecret::from(secret).diffie_hellman(&PublicKey::from(public))`:
/// the shared secret, named `x25519_shared`, held in a `Zeroizing` array as
/// the crate's `SharedSecret` wipes itself.  It also states the
/// Diffie-Hellman agreement that the crate documents for each party's
/// `SharedSecret`: both scalars are clamped and multiplied onto the base
/// point, so a secret `other` whose public key is `public` computes the same
/// bytes against this secret's public key.
#[verifier::external_body]
pub(crate) fn x25519_diffie_hellman(secret: &SecretKey, public: &[u8; 32]) -> (shared: SecretKey)
    ensures
        shared@ == x25519_shared(secret@, public@),
        forall|other: Seq<u8>|
            other.len() == 32 && public@ == #[trigger] x25519_public(other) ==> shared@
                == x25519_shared(other, x25519_public(secret@)),
{
    let shared = StaticSecret::from(*secret.inner).diffie_hellman(&PublicKey::from(*public));
    SecretKey { inner: Zeroizing::new(shared.to_bytes()) }
}

/// `kyber1024::keypair()` followed by `kyber1024::encapsulate(&pk)`, all
/// three results as bytes: (secret key, ciphertext, shared secret).  The
/// results are random; what is stated are their lengths and the KEM's
/// correctness, which the crate's own `test_kem` asserts: decapsulating the
/// ciphertext with the secret key gives the encapsulated shared secret.
/// (Kyber's designed decapsulation failure rate, about 2^-174, is not
/// modelled.)
#[verifier::external_body]
pub(crate) fn kyber1024_encapsulated_keypair() -> (r: (Vec<u8>, Vec<u8>, Vec<u8>))
    ensures
        r.0@.len() == KYBER1024_SECRET_KEY_LEN,
        r.1@.len() == KYBER1024_CIPHERTEXT_LEN,
        r.2@.len() == KEY_LEN,
        kyber1024_shared(r.1@, r.0@) == r.2@,
{
    let (pk, sk) = kyber1024::keypair();
    let (ss, ct) = kyber1024::encapsulate(&pk);
    (sk.as_bytes().to_vec(), ct.as_bytes().to_vec(), ss.as_bytes().to_vec())
}

/// The same for `kyber768::keypair()` and `kyber768::encapsulate(&pk)`.
#[verifier::external_body]
pub(crate) fn kyber768_encapsulated_keypair() -> (r: (Vec<u8>, Vec<u8>, Vec<u8>))
    ensures
        r.0@.len() == KYBER768_SECRET_KEY_LEN,
        r.1@.len() == KYBER768_CIPHERTEXT_LEN,
        r.2@.len() == KEY_LEN,
        kyber768_shared(r.1@, r.0@) == r.2@,
{
    let (pk, sk) = kyber768::keypair();
    let (ss, ct) = kyber768::encapsulate(&pk);
    (sk.as_bytes().to_vec(), ct.as_bytes().to_vec(), ss.as_bytes().to_vec())
}

/// `kyber1024::SecretKey::from_bytes`, `kyber1024::Ciphertext::from_bytes`
/// (each refuses a slice of the wrong length, the secret key first) and
/// `kyber1024::decapsulate`, whose 32-byte result is named `kyber1024_shared`.
#[verifier::external_body]
pub(crate) fn kyber1024_decapsulate(ciphertext: &[u8], secret_key: &[u8]) -> (r: Result<Vec<u8>, KyberInput>)
    ensures
        secret_key@.len() != KYBER1024_SECRET_KEY_LEN ==> r is Err && r->Err_0 == KyberInput::SecretKey,
        secret_key@.len() == KYBER1024_SECRET_KEY_LEN && ciphertext@.len() != KYBER1024_CIPHERTEXT_LEN
            ==> r is Err && r->Err_0 == KyberInput::Ciphertext,
        secret_key@.len() == KYBER1024_SECRET_KEY_LEN && ciphertext@.len() == KYBER1024_CIPHERTEXT_LEN
            ==> r is Ok,
        r is Ok ==> r->Ok_0@ == kyber1024_shared(ciphertext@, secret_key@) && r->Ok_0@.len() == KEY_LEN,
{
    let sk = kyber1024::SecretKey::from_bytes(secret_key).map_err(|_| KyberInput::SecretKey)?;
    let ct = kyber1024::Ciphertext::from_bytes(ciphertext).map_err(|_| KyberInput::Ciphertext)?;
    Ok(kyber1024::decapsulate(&ct, &sk).as_bytes().to_vec())
}

/// The same for Kyber-768, whose result is named `kyber768_shared`.
#[verifier::external_body]
pub(crate) fn kyber768_decapsulate(ciphertext: &[u8], secret_key: &[u8]) -> (r: Result<Vec<u8>, KyberInput>)
    ensures
        secret_key@.len() != KYBER768_SECRET_KEY_LEN ==> r is Err && r->Err_0 == KyberInput::SecretKey,
        secret_key@.len() == KYBER768_SECRET_KEY_LEN && ciphertext@.len() != KYBER768_CIPHERTEXT_LEN
            ==> r is Err && r->Err_0 == KyberInput::Ciphertext,
        secret_key@.len() == KYBER768_SECRET_KEY_LEN && ciphertext@.len() == KYBER768_CIPHERTEXT_LEN
            ==> r is Ok,
        r is Ok ==> r->Ok_0@ == kyber768_shared(ciphertext@, secret_key@) && r->Ok_0@.len() == KEY_LEN,
{
    let sk = kyber768::SecretKey::from_bytes(secret_key).map_err(|_| KyberInput::SecretKey)?;
    let ct = kyber768::Ciphertext::from_bytes(ciphertext).map_err(|_| KyberInput::Ciphertext)?;
    Ok(kyber768::decapsulate(&ct, &sk).as_bytes().to_vec())
}

/// `Sha256::new()`, `update(first)`, `update(second)`, `finalize()`: by the
/// `Digest` documentation, successive updates hash the concatenation.  The
/// digest is named `sha256_digest` and is 32 bytes long.
#[verifier::external_body]
pub(crate) fn sha256_concat(first: &[u8], second: &[u8]) -> (digest: Vec<u8>)
    ensures
        digest@ == sha256_digest(first@ + second@),
        digest@.len() == KEY_LEN,
{
    let mut hasher = Sha256::new();
    hasher.update(first);
    hasher.update(second);
    hasher.finalize().to_vec()
}

/// `Aes256Gcm::new(key).encrypt(nonce, Payload { msg, aad })`.  The source
/// refuses only a plaintext or associated data longer than 2^36 bytes, so
/// within the 2^32 - 1 bytes required here it returns the ciphertext followed
/// by a 16-byte tag, named `aes256gcm_sealed`.  `Nonce::from_slice` panics
/// unless the nonce has 12 bytes.
#[verifier::external_body]
pub(crate) fn aes256gcm_encrypt(key: &[u8; 32], nonce: &[u8], msg: &[u8], aad: &[u8]) -> (r: Option<Vec<u8>>)
    requires
        nonce@.len() == 12,
        msg@.len() <= AEAD_MAX_LEN,
        aad@.len() <= AEAD_MAX_LEN,
    ensures
        r is Some,
        r matches Some(c) ==> c@ == aes256gcm_sealed(key@, nonce@, msg@, aad@) && c@.len() == msg@.len()
            + AEAD_TAG_LEN,
{
    Aes256Gcm::new(&(*key).into()).encrypt(AesNonce::from_slice(nonce), Payload { msg, aad }).ok()
}

/// `Aes256Gcm::new(key).decrypt(nonce, Payload { msg, aad })`.  The source
/// splits off the 16-byte tag, checks it over the rest and only then inverts
/// the keystream, so it succeeds exactly on the outputs of `encrypt` and then
/// gives back the plaintext that was sealed, 16 bytes shorter than `msg`.
/// The 2^32 - 1 bound on `msg` keeps every plaintext involved within what
/// `encrypt` accepts.  Panics unless the nonce has 12 bytes.
#[verifier::external_body]
pub(crate) fn aes256gcm_decrypt(key: &[u8; 32], nonce: &[u8], msg: &[u8], aad: &[u8]) -> (r: Option<Vec<u8>>)
    requires
        nonce@.len() == 12,
        msg@.len() <= AEAD_MAX_LEN,
        aad@.len() <= AEAD_MAX_LEN,
    ensures
        r matches Some(p) ==> p@.len() + AEAD_TAG_LEN == msg@.len() && aes256gcm_sealed(
            key@,
            nonce@,
            p@,
            aad@,
        ) == msg@,
        forall|p: Seq<u8>|
            #[trigger] aes256gcm_sealed(key@, nonce@, p, aad@) == msg@ && p.len() <= AEAD_MAX_LEN ==> r is Some
                && r->Some_0@ == p,
{
    Aes256Gcm::new(&(*key).into()).decrypt(AesNonce::from_slice(nonce), Payload { msg, aad }).ok()
}

/// `XChaCha20Poly1305::new(key).encrypt(nonce, Payload { msg, aad })`.  The
/// source refuses a plaintext of 2^32 - 1 or more 64-byte blocks and panics
/// just below that bound, where the keystream runs out; within the 2^32 - 1
/// bytes required here it returns the ciphertext followed by a 16-byte tag,
/// named `xchacha20poly1305_sealed`.  `XNonce::from_slice` panics unless the
/// nonce has 24 bytes.
#[verifier::external_body]
pub(crate) fn xchacha20poly1305_encrypt(key: &[u8; 32], nonce: &[u8], msg: &[u8], aad: &[u8]) -> (r: Option<Vec<u8>>)
    requires
        nonce@.len() == 24,
        msg@.len() <= AEAD_MAX_LEN,
        aad@.len() <= AEAD_MAX_LEN,
    ensures
        r is Some,
        r matches Some(c) ==> c@ == xchacha20poly1305_sealed(key@, nonce@, msg@, aad@) && c@.len()
            == msg@.len() + AEAD_TAG_LEN,
{
    XChaCha20Poly1305::new(&(*key).into()).encrypt(XNonce::from_slice(nonce), Payload { msg, aad }).ok()
}

/// `XChaCha20Poly1305::new(key).decrypt(nonce, Payload { msg, aad })`: it
/// splits off the tag and verifies it before decrypting, so it succeeds
/// exactly on the outputs of `encrypt` and gives back the plaintext that was
/// sealed, 16 bytes shorter than `msg`.  The 2^32 - 1 bound on `msg` keeps
/// clear of the lengths where the keystream runs out.  Panics unless the
/// nonce has 24 bytes.
#[verifier::external_body]
pub(crate) fn xchacha20poly1305_decrypt(key: &[u8; 32], nonce: &[u8], msg: &[u8], aad: &[u8]) -> (r: Option<Vec<u8>>)
    requires
        nonce@.len() == 24,
        msg@.len() <= AEAD_MAX_LEN,
        aad@.len() <= AEAD_MAX_LEN,
    ensures
        r matches Some(p) ==> p@.len() + AEAD_TAG_LEN == msg@.len() && xchacha20poly1305_sealed(
            key@,
            nonce@,
            p@,
            aad@,
        ) == msg@,
        forall|p: Seq<u8>|
            #[trigger] xchacha20poly1305_sealed(key@, nonce@, p, aad@) == msg@ && p.len() <= AEAD_MAX_LEN
                ==> r is Some && r->Some_0@ == p,
{
    XChaCha20Poly1305::new(&(*key).into()).decrypt(XNonce::from_slice(nonce), Payload { msg, aad }).ok()
}

} // verus!
