//! Nonce derivation, key derivation, the phantom block, the hybrid KEM and
//! master key synthesis.

use vstd::prelude::*;
use vstd::bytes::{
    lemma_auto_spec_u64_to_from_le_bytes, spec_u64_to_le_bytes, spec_u64_to_le_bytes_to_open,
    u64_to_le_bytes,
};
use vstd::slice::slice_subrange;
use vstd::string::StringSliceAdditionalSpecFns;

use crate::error::VaultError;
use crate::primitives::{
    argon2_outcome, argon2id_default_hash, argon2id_hash, fill_random,
    kyber1024_decapsulate, kyber1024_encapsulated_keypair, kyber1024_shared, kyber768_decapsulate,
    kyber768_encapsulated_keypair, kyber768_shared, sha256_concat, sha256_digest,
    x25519_diffie_hellman, x25519_public_key, x25519_random_secret,
    x25519_shared, Argon2Failure, KyberInput, SecretBytes, SecretKey, ARGON2_MAX_INPUT_LEN, KEY_LEN,
    KYBER1024_CIPHERTEXT_LEN, KYBER1024_SECRET_KEY_LEN, KYBER768_CIPHERTEXT_LEN,
    KYBER768_SECRET_KEY_LEN,
};

verus! {

// ---------------------------------------------------------------------------
// Streaming nonces
// ---------------------------------------------------------------------------

/// The nonce used for chunk `counter`: the base nonce with its last eight
/// bytes XORed with the little-endian bytes of `counter`.
pub open spec fn incremented_nonce(base: Seq<u8>, counter: u64) -> Seq<u8>
    recommends
        base.len() >= 8,
{
    Seq::new(
        base.len(),
        |i: int|
            if i < base.len() - 8 {
                base[i]
            } else {
                base[i] ^ spec_u64_to_le_bytes(counter)[i - (base.len() - 8)]
            },
    )
}

/// Safely increments the nonce for each streaming chunk to prevent
/// cryptographic reuse: XORs the little-endian counter into the last eight
/// bytes of the base nonce.
pub fn increment_nonce(base: &[u8], counter: u64) -> (nonce: Vec<u8>)
    requires
        base@.len() >= 8,
    ensures
        nonce@ == incremented_nonce(base@, counter),
{
    let counter_bytes = u64_to_le_bytes(counter);
    let len = base.len();
    let mut nonce: Vec<u8> = Vec::new();
    let mut i: usize = 0;
    while i < len
        invariant
            len == base@.len(),
            len >= 8,
            i <= len,
            counter_bytes@ == spec_u64_to_le_bytes(counter),
            counter_bytes@.len() == 8,
            nonce@.len() == i,
            forall|j: int| 0 <= j < i ==> nonce@[j] == incremented_nonce(base@, counter)[j],
        decreases len - i,
    {
        let b = if i < len - 8 {
            base[i]
        } else {
            base[i] ^ counter_bytes[i - (len - 8)]
        };
        nonce.push(b);
        i = i + 1;
    }
    assert(nonce@ =~= incremented_nonce(base@, counter));
    nonce
}

/// Chunk 0 is sealed under the base nonce itself.
pub proof fn lemma_nonce_of_first_chunk(base: Seq<u8>)
    requires
        base.len() >= 8,
    ensures
        incremented_nonce(base, 0) == base,
{
    spec_u64_to_le_bytes_to_open(0);
    assert forall|i: int| 0 <= i < base.len() implies #[trigger] incremented_nonce(base, 0)[i]
        == base[i] by {
        if i >= base.len() - 8 {
            let b = base[i];
            assert(b ^ 0u8 == b) by (bit_vector);
            let k = i - (base.len() - 8);
            let z: u64 = 0;
            assert(((z >> 8u64) & 0xff) as u8 == 0u8 && ((z >> 16u64) & 0xff) as u8 == 0u8 && ((z
                >> 24u64) & 0xff) as u8 == 0u8 && ((z >> 32u64) & 0xff) as u8 == 0u8 && ((z >> 40u64)
                & 0xff) as u8 == 0u8 && ((z >> 48u64) & 0xff) as u8 == 0u8 && ((z >> 56u64) & 0xff) as u8
                == 0u8 && (z & 0xff) as u8 == 0u8) by (bit_vector)
                requires
                    z == 0,
            ;
            assert(spec_u64_to_le_bytes(0)[k] == 0u8);
        }
    }
    assert(incremented_nonce(base, 0) =~= base);
}

/// Every byte before the counter bytes is the base nonce's.
pub proof fn lemma_nonce_keeps_prefix(base: Seq<u8>, counter: u64)
    requires
        base.len() >= 8,
    ensures
        incremented_nonce(base, counter).len() == base.len(),
        incremented_nonce(base, counter).subrange(0, base.len() - 8) == base.subrange(
            0,
            base.len() - 8,
        ),
{
    assert(incremented_nonce(base, counter).subrange(0, base.len() - 8) =~= base.subrange(
        0,
        base.len() - 8,
    ));
}

/// No two chunks of one vault share a nonce: distinct counters give distinct
/// nonces.
pub proof fn lemma_nonces_distinct(base: Seq<u8>, c1: u64, c2: u64)
    requires
        base.len() >= 8,
        c1 != c2,
    ensures
        incremented_nonce(base, c1) != incremented_nonce(base, c2),
{
    lemma_auto_spec_u64_to_from_le_bytes();
    let n1 = incremented_nonce(base, c1);
    let n2 = incremented_nonce(base, c2);
    let l1 = spec_u64_to_le_bytes(c1);
    let l2 = spec_u64_to_le_bytes(c2);
    if n1 == n2 {
        assert forall|k: int| 0 <= k < 8 implies #[trigger] l1[k] == l2[k] by {
            let i = base.len() - 8 + k;
            let b = base[i];
            let x = l1[k];
            let y = l2[k];
            assert(n1[i] == b ^ x);
            assert(n2[i] == b ^ y);
            assert((b ^ x) == (b ^ y) ==> x == y) by (bit_vector);
        }
        assert(l1 =~= l2);
        assert(c1 == c2);
    }
}

/// Byte by byte, the nonce of chunk `counter` is the base nonce with byte
/// `k` of the counter's little-endian encoding XORed into byte `len - 8 + k`,
/// for every `k < 8` and whatever the nonce's length (12 bytes for
/// AES-256-GCM, 24 for XChaCha20-Poly1305); the lowest byte of the counter
/// lands in byte `len - 8`.
pub proof fn lemma_nonce_counter_bytes(base: Seq<u8>, counter: u64)
    requires
        base.len() >= 8,
    ensures
        incremented_nonce(base, counter).len() == base.len(),
        forall|k: int|
            #![trigger spec_u64_to_le_bytes(counter)[k]]
            0 <= k < 8 ==> incremented_nonce(base, counter)[base.len() - 8 + k] == base[base.len() - 8
                + k] ^ spec_u64_to_le_bytes(counter)[k],
        incremented_nonce(base, counter)[base.len() - 8] == base[base.len() - 8] ^ ((counter
            % 256) as u8),
{
    spec_u64_to_le_bytes_to_open(counter);
    let c = counter;
    assert((c & 0xff) as u8 == (c % 256) as u8) by (bit_vector);
}

/// Applying the same counter twice gives back the base nonce.
pub proof fn lemma_nonce_counter_cancels(base: Seq<u8>, counter: u64)
    requires
        base.len() >= 8,
    ensures
        incremented_nonce(incremented_nonce(base, counter), counter) == base,
{
    let n = incremented_nonce(base, counter);
    let twice = incremented_nonce(n, counter);
    assert forall|i: int| 0 <= i < base.len() implies #[trigger] twice[i] == base[i] by {
        if i >= base.len() - 8 {
            let b = base[i];
            let x = spec_u64_to_le_bytes(counter)[i - (base.len() - 8)];
            assert((b ^ x) ^ x == b) by (bit_vector);
        }
    }
    assert(twice =~= base);
}

// ---------------------------------------------------------------------------
// Master key synthesis
// ---------------------------------------------------------------------------

/// The master key: the Argon2 key XORed byte by byte with the first 32 bytes
/// of the hybrid shared secret.
pub open spec fn master_key_of(argon_key: Seq<u8>, shared_secret: Seq<u8>) -> Seq<u8> {
    Seq::new(KEY_LEN as nat, |i: int| argon_key[i] ^ shared_secret[i])
}

/// Synthesizes the final master key by XORing the Argon2 output and the
/// hybrid shared secret.
pub fn compute_master_key(argon_key: &[u8; 32], ss_bytes: &[u8]) -> (key: SecretKey)
    requires
        ss_bytes@.len() >= KEY_LEN,
    ensures
        key@ == master_key_of(argon_key@, ss_bytes@),
{
    let mut key = SecretKey::zeroed();
    let mut i: usize = 0;
    while i < KEY_LEN
        invariant
            i <= KEY_LEN,
            ss_bytes@.len() >= KEY_LEN,
            key@.len() == KEY_LEN,
            forall|j: int| 0 <= j < i ==> key@[j] == argon_key@[j] ^ ss_bytes@[j],
        decreases KEY_LEN - i,
    {
        key.set(i, argon_key[i] ^ ss_bytes[i]);
        i = i + 1;
    }
    assert(key@ =~= master_key_of(argon_key@, ss_bytes@));
    key
}

/// XORing the master key with the same shared secret gives back the Argon2
/// key: neither half alone determines the master key, and together they
/// recover each other.
pub proof fn lemma_master_key_unmasks(argon_key: Seq<u8>, shared_secret: Seq<u8>)
    requires
        argon_key.len() == KEY_LEN,
        shared_secret.len() >= KEY_LEN,
    ensures
        master_key_of(master_key_of(argon_key, shared_secret), shared_secret) == argon_key,
{
    let m = master_key_of(argon_key, shared_secret);
    assert forall|i: int| 0 <= i < KEY_LEN implies #[trigger] master_key_of(m, shared_secret)[i]
        == argon_key[i] by {
        let a = argon_key[i];
        let s = shared_secret[i];
        assert((a ^ s) ^ s == a) by (bit_vector);
    }
    assert(master_key_of(m, shared_secret) =~= argon_key);
}

/// Byte `i` of the master key is byte `i` of the Argon2 key XORed with byte
/// `i` of the hybrid shared secret, the same position in both, for each of
/// the 32 bytes; bytes of the shared secret past the 32nd play no part.
pub proof fn lemma_master_key_bytes(argon_key: Seq<u8>, shared_secret: Seq<u8>)
    requires
        argon_key.len() == KEY_LEN,
        shared_secret.len() >= KEY_LEN,
    ensures
        master_key_of(argon_key, shared_secret).len() == KEY_LEN,
        forall|i: int|
            #![trigger argon_key[i], shared_secret[i]]
            0 <= i < KEY_LEN ==> master_key_of(argon_key, shared_secret)[i] == argon_key[i]
                ^ shared_secret[i],
        master_key_of(argon_key, shared_secret) == master_key_of(
            argon_key,
            shared_secret.subrange(0, KEY_LEN as int),
        ),
{
    assert(master_key_of(argon_key, shared_secret) =~= master_key_of(
        argon_key,
        shared_secret.subrange(0, KEY_LEN as int),
    ));
}

/// An Argon2 key masked with a shared secret equal to it gives the all-zero
/// master key: every byte cancels against the byte at the same position.
pub proof fn lemma_master_key_self_cancels(argon_key: Seq<u8>)
    requires
        argon_key.len() == KEY_LEN,
    ensures
        master_key_of(argon_key, argon_key) == Seq::new(KEY_LEN as nat, |i: int| 0u8),
{
    assert forall|i: int| 0 <= i < KEY_LEN implies #[trigger] master_key_of(argon_key, argon_key)[i]
        == 0u8 by {
        let a = argon_key[i];
        assert(a ^ a == 0u8) by (bit_vector);
    }
    assert(master_key_of(argon_key, argon_key) =~= Seq::new(KEY_LEN as nat, |i: int| 0u8));
}

// ---------------------------------------------------------------------------
// Password-based key derivation
// ---------------------------------------------------------------------------

/// Length of the salt stored in the vault header.
pub const SALT_LEN: usize = 16;

/// The bytes of a string slice (its UTF-8 encoding).
pub open spec fn utf8(s: &str) -> Seq<u8> {
    s.spec_bytes()
}

/// The 32-byte key Argon2 derives from a password and salt, or the reason it
/// refuses, reported as a failure to derive the vault key.
pub open spec fn key_derivation(password: Seq<u8>, salt: Seq<u8>) -> Result<Seq<u8>, VaultError> {
    match argon2_outcome(password, salt) {
        Ok(k) => Ok(k),
        Err(e) => Err(VaultError::KeyDerivation(e)),
    }
}

/// Derives a fresh 32-byte key and a 16-byte random salt for encryption.
/// Only a password longer than Argon2 accepts is refused.
pub fn derive_key(pin: &str) -> (r: Result<(SecretKey, [u8; 16]), VaultError>)
    ensures
        r is Ok <==> utf8(pin).len() <= ARGON2_MAX_INPUT_LEN,
        r matches Ok((key, salt)) ==> key@ == argon2id_default_hash(utf8(pin), salt@, KEY_LEN as nat),
        r matches Err(e) ==> e == VaultError::KeyDerivation(Argon2Failure::PwdTooLong),
{
    let mut salt = [0u8; 16];
    fill_random(&mut salt);
    match argon2id_hash(pin.as_bytes(), &salt) {
        Ok(key) => Ok((key, salt)),
        Err(e) => Err(VaultError::KeyDerivation(e)),
    }
}

/// Derives the 32-byte key using an existing salt extracted from the vault
/// header.
pub fn derive_key_with_salt(pin: &str, salt: &[u8]) -> (r: Result<SecretKey, VaultError>)
    ensures
        r is Ok <==> key_derivation(utf8(pin), salt@) is Ok,
        r matches Ok(key) ==> key@ == key_derivation(utf8(pin), salt@)->Ok_0,
        r matches Err(e) ==> e == key_derivation(utf8(pin), salt@)->Err_0,
{
    match argon2id_hash(pin.as_bytes(), salt) {
        Ok(key) => Ok(key),
        Err(e) => Err(VaultError::KeyDerivation(e)),
    }
}

// ---------------------------------------------------------------------------
// The phantom block
// ---------------------------------------------------------------------------

/// Length of the phantom block at the end of the key file.
pub const PHANTOM_LEN: usize = 32;

/// The Unicode `White_Space` property, the set that `char::is_whitespace`
/// and `str::trim` go by: the 25 code points U+0009..=U+000D, U+0020,
/// U+0085, U+00A0, U+1680, U+2000..=U+200A, U+2028, U+2029, U+202F, U+205F
/// and U+3000.
pub open spec fn unicode_white_space(c: char) -> bool {
    let u = c as u32;
    ||| 0x09 <= u <= 0x0D
    ||| u == 0x20
    ||| u == 0x85
    ||| u == 0xA0
    ||| u == 0x1680
    ||| 0x2000 <= u <= 0x200A
    ||| u == 0x2028
    ||| u == 0x2029
    ||| u == 0x202F
    ||| u == 0x205F
    ||| u == 0x3000
}

/// Whether a character is Unicode white space, as `char::is_whitespace`
/// decides.
pub fn is_white_space(c: char) -> (r: bool)
    ensures
        r == unicode_white_space(c),
{
    let u = c as u32;
    (0x09 <= u && u <= 0x0D) || u == 0x20 || u == 0x85 || u == 0xA0 || u == 0x1680 || (0x2000 <= u
        && u <= 0x200A) || u == 0x2028 || u == 0x2029 || u == 0x202F || u == 0x205F || u == 0x3000
}

/// The white space characters, one by one: tab, line feed, vertical tab,
/// form feed, carriage return, space, next line, no-break space, ogham space
/// mark, the eleven spaces from en quad to hair space, line separator,
/// paragraph separator, narrow no-break space, medium mathematical space
/// and ideographic space.  No other character is white space.
pub proof fn lemma_white_space_chars(c: char)
    ensures
        unicode_white_space(c) <==> {
            ||| c == '\t' || c == '\n' || c == '\u{0B}' || c == '\u{0C}' || c == '\r' || c == ' '
            ||| c == '\u{85}' || c == '\u{A0}' || c == '\u{1680}'
            ||| c == '\u{2000}' || c == '\u{2001}' || c == '\u{2002}' || c == '\u{2003}'
            ||| c == '\u{2004}' || c == '\u{2005}' || c == '\u{2006}' || c == '\u{2007}'
            ||| c == '\u{2008}' || c == '\u{2009}' || c == '\u{200A}'
            ||| c == '\u{2028}' || c == '\u{2029}' || c == '\u{202F}' || c == '\u{205F}'
            ||| c == '\u{3000}'
        },
{
}

/// Of the ASCII characters only the six control and space characters above
/// are white space: no digit, letter or punctuation mark (U+0021..=U+007E)
/// is, so a string holding one is not blank.
pub proof fn lemma_visible_ascii_not_white_space(s: Seq<char>, i: int)
    requires
        0 <= i < s.len(),
        0x21 <= s[i] as u32 <= 0x7E,
    ensures
        !unicode_white_space(s[i]),
        !is_blank(s),
{
    assert(!unicode_white_space(s[i]));
}

/// A string is blank when every character is Unicode white space
/// (`str::trim` leaves nothing of it).
pub open spec fn is_blank(s: Seq<char>) -> bool {
    forall|i: int| 0 <= i < s.len() ==> #[trigger] unicode_white_space(s[i])
}

/// Whether a passcode is blank: empty or only white space.
pub fn is_blank_str(s: &str) -> (r: bool)
    ensures
        r == is_blank(s@),
{
    broadcast use vstd::string::axiom_spec_iter;
    let mut blank = true;
    for c in it: s.chars()
        invariant
            it.seq() == s@,
            blank == (forall|j: int| 0 <= j < it.index() ==> #[trigger] unicode_white_space(s@[j])),
    {
        if !is_white_space(c) {
            blank = false;
        }
    }
    blank
}

/// What the phantom block holds for a non-blank deception passcode, or why
/// Argon2 refused to compute it.
pub open spec fn phantom_derivation(passcode: Seq<u8>, salt: Seq<u8>) -> Result<Seq<u8>, VaultError> {
    match argon2_outcome(passcode, salt) {
        Ok(k) => Ok(k),
        Err(e) => Err(VaultError::PhantomDerivation(e)),
    }
}

/// Generates the 32-byte phantom block for the end of the key file, the
/// plausibly deniable duress trapdoor: random noise when no deception
/// passcode is set (the passcode is blank), otherwise the Argon2 hash of the
/// passcode under the vault's salt.
pub fn generate_phantom_block(passcode: &str, salt: &[u8]) -> (r: Result<Vec<u8>, VaultError>)
    ensures
        is_blank(passcode@) ==> r is Ok,
        r matches Ok(block) ==> block@.len() == PHANTOM_LEN,
        !is_blank(passcode@) ==> (r is Ok <==> phantom_derivation(utf8(passcode), salt@) is Ok),
        !is_blank(passcode@) && r is Ok ==> r->Ok_0@ == phantom_derivation(utf8(passcode), salt@)->Ok_0,
        r matches Err(e) ==> e == phantom_derivation(utf8(passcode), salt@)->Err_0,
{
    if is_blank_str(passcode) {
        let mut block: Vec<u8> = vec![0u8; PHANTOM_LEN];
        fill_random(block.as_mut_slice());
        Ok(block)
    } else {
        match argon2id_hash(passcode.as_bytes(), salt) {
            Ok(secret) => {
                let hash = secret.as_array();
                let mut block: Vec<u8> = Vec::new();
                let mut i: usize = 0;
                while i < KEY_LEN
                    invariant
                        i <= KEY_LEN,
                        hash@.len() == KEY_LEN,
                        block@ == hash@.subrange(0, i as int),
                    decreases KEY_LEN - i,
                {
                    block.push(hash[i]);
                    i = i + 1;
                }
                assert(block@ =~= hash@);
                Ok(block)
            },
            Err(e) => Err(VaultError::PhantomDerivation(e)),
        }
    }
}

// ---------------------------------------------------------------------------
// Hybrid KEM: Kyber + X25519, combined with SHA-256
// ---------------------------------------------------------------------------

/// Length of the X25519 part at the end of the combined secret key and of
/// the combined ciphertext.
pub const X25519_LEN: usize = 32;

/// KEM identifier written to the vault header for Kyber-1024 ("cypherpunk").
pub const KEM_KYBER1024: u8 = 2;

/// KEM identifier written to the vault header for Kyber-768 ("standard").
pub const KEM_KYBER768: u8 = 1;

/// The KEM identifier a profile name selects: "cypherpunk" selects
/// Kyber-1024, any other name Kyber-768.
pub open spec fn kem_id_for(choice: Seq<char>) -> u8 {
    if choice == "cypherpunk"@ {
        KEM_KYBER1024
    } else {
        KEM_KYBER768
    }
}

/// Kyber secret key length for a KEM identifier (2: Kyber-1024, other:
/// Kyber-768).
pub open spec fn kyber_secret_key_len(kem_id: u8) -> nat {
    if kem_id == KEM_KYBER1024 {
        KYBER1024_SECRET_KEY_LEN as nat
    } else {
        KYBER768_SECRET_KEY_LEN as nat
    }
}

/// Kyber ciphertext length for a KEM identifier.
pub open spec fn kyber_ciphertext_len(kem_id: u8) -> nat {
    if kem_id == KEM_KYBER1024 {
        KYBER1024_CIPHERTEXT_LEN as nat
    } else {
        KYBER768_CIPHERTEXT_LEN as nat
    }
}

/// The Kyber shared secret recovered for a KEM identifier.
pub open spec fn kyber_shared(kem_id: u8, ciphertext: Seq<u8>, secret_key: Seq<u8>) -> Seq<u8> {
    if kem_id == KEM_KYBER1024 {
        kyber1024_shared(ciphertext, secret_key)
    } else {
        kyber768_shared(ciphertext, secret_key)
    }
}

/// The hybrid shared secret of a combined secret key (Kyber secret key then
/// X25519 secret) and combined ciphertext (Kyber ciphertext then ephemeral
/// X25519 public key): SHA-256 over the Kyber secret followed by the X25519
/// secret.
pub open spec fn hybrid_shared_secret(kem_id: u8, combined_sk: Seq<u8>, combined_ct: Seq<u8>) -> Seq<u8> {
    let ks = combined_sk.len() - X25519_LEN;
    let kc = combined_ct.len() - X25519_LEN;
    sha256_digest(
        kyber_shared(kem_id, combined_ct.subrange(0, kc), combined_sk.subrange(0, ks))
            + x25519_shared(
            combined_sk.subrange(ks, combined_sk.len() as int),
            combined_ct.subrange(kc, combined_ct.len() as int),
        ),
    )
}

/// What hybrid decapsulation gives: the hybrid shared secret, or the first
/// length check that fails.
pub open spec fn hybrid_decapsulation(kem_id: u8, combined_sk: Seq<u8>, combined_ct: Seq<u8>) -> Result<
    Seq<u8>,
    VaultError,
> {
    if combined_sk.len() < X25519_LEN || combined_ct.len() < X25519_LEN {
        Err(VaultError::PayloadTooShort)
    } else if combined_sk.len() - X25519_LEN != kyber_secret_key_len(kem_id) {
        Err(VaultError::InvalidKeyFile)
    } else if combined_ct.len() - X25519_LEN != kyber_ciphertext_len(kem_id) {
        Err(VaultError::CompromisedHeader)
    } else {
        Ok(hybrid_shared_secret(kem_id, combined_sk, combined_ct))
    }
}

/// Whenever hybrid decapsulation succeeds, its secret is SHA-256 over an
/// input that binds both halves: the input starts with the Kyber shared
/// secret of the Kyber parts (all but the last 32 bytes of the secret key and
/// of the ciphertext) and ends with the X25519 shared secret of the last 32
/// bytes of the secret key with the last 32 bytes of the ciphertext, with
/// nothing in between.
pub proof fn lemma_hybrid_secret_binds_both(kem_id: u8, combined_sk: Seq<u8>, combined_ct: Seq<u8>)
    requires
        hybrid_decapsulation(kem_id, combined_sk, combined_ct) is Ok,
    ensures
        exists|input: Seq<u8>|
            {
                let kyber_ss = kyber_shared(
                    kem_id,
                    combined_ct.subrange(0, combined_ct.len() - 32),
                    combined_sk.subrange(0, combined_sk.len() - 32),
                );
                let x25519_ss = x25519_shared(
                    combined_sk.subrange(combined_sk.len() - 32, combined_sk.len() as int),
                    combined_ct.subrange(combined_ct.len() - 32, combined_ct.len() as int),
                );
                &&& #[trigger] sha256_digest(input) == hybrid_decapsulation(
                    kem_id,
                    combined_sk,
                    combined_ct,
                )->Ok_0
                &&& input.len() == kyber_ss.len() + x25519_ss.len()
                &&& input.subrange(0, kyber_ss.len() as int) == kyber_ss
                &&& input.subrange(kyber_ss.len() as int, input.len() as int) == x25519_ss
            },
{
    let kyber_ss = kyber_shared(
        kem_id,
        combined_ct.subrange(0, combined_ct.len() - 32),
        combined_sk.subrange(0, combined_sk.len() - 32),
    );
    let x25519_ss = x25519_shared(
        combined_sk.subrange(combined_sk.len() - 32, combined_sk.len() as int),
        combined_ct.subrange(combined_ct.len() - 32, combined_ct.len() as int),
    );
    let input = kyber_ss + x25519_ss;
    assert(input.subrange(0, kyber_ss.len() as int) =~= kyber_ss);
    assert(input.subrange(kyber_ss.len() as int, input.len() as int) =~= x25519_ss);
    assert(sha256_digest(input) == hybrid_decapsulation(kem_id, combined_sk, combined_ct)->Ok_0);
}

/// Whether two strings hold the same characters.
pub(crate) fn same_text(a: &str, b: &str) -> (r: bool)
    ensures
        r == (a@ == b@),
{
    let a = a.to_owned();
    let b = b.to_owned();
    a == b
}

/// Copies a 32-byte slice into an array.
fn to_array32(s: &[u8]) -> (a: [u8; 32])
    requires
        s@.len() == 32,
    ensures
        a@ == s@,
{
    let mut a = [0u8; 32];
    let mut i: usize = 0;
    while i < 32
        invariant
            i <= 32,
            s@.len() == 32,
            a@.len() == 32,
            forall|j: int| 0 <= j < i ==> a@[j] == s@[j],
        decreases 32 - i,
    {
        a[i] = s[i];
        i = i + 1;
    }
    assert(a@ =~= s@);
    a
}

/// Copies a 32-byte slice into a key that is wiped when dropped.
fn to_secret_key32(s: &[u8]) -> (k: SecretKey)
    requires
        s@.len() == 32,
    ensures
        k@ == s@,
{
    let mut k = SecretKey::zeroed();
    let mut i: usize = 0;
    while i < 32
        invariant
            i <= 32,
            s@.len() == 32,
            k@.len() == 32,
            forall|j: int| 0 <= j < i ==> k@[j] == s@[j],
        decreases 32 - i,
    {
        k.set(i, s[i]);
        i = i + 1;
    }
    assert(k@ =~= s@);
    k
}

/// Hybrid KEM: generates X25519 and Kyber key pairs, combines the two shared
/// secrets with SHA-256 and packs the payloads.  Returns the combined secret
/// key (for the key file), the combined ciphertext (for the vault header),
/// the hybrid shared secret and the KEM identifier.  The keys are random;
/// what holds of every outcome is that hybrid decapsulation of the returned
/// ciphertext with the returned secret key recovers the returned secret.
pub fn generate_hybrid_kem(kem_choice: &str) -> (r: Result<(SecretBytes, Vec<u8>, SecretBytes, u8), VaultError>)
    ensures
        r is Ok,
        r matches Ok((sk, ct, ss, kem_id)) ==> {
            &&& kem_id == kem_id_for(kem_choice@)
            &&& sk@.len() == kyber_secret_key_len(kem_id) + X25519_LEN
            &&& ct@.len() == kyber_ciphertext_len(kem_id) + X25519_LEN
            &&& ss@.len() == KEY_LEN
            &&& hybrid_decapsulation(kem_id, sk@, ct@) == Ok::<Seq<u8>, VaultError>(ss@)
        },
{
    // 1. Classical X25519
    let vault_secret = x25519_random_secret();
    let ephemeral_secret = x25519_random_secret();
    let ephemeral_public = x25519_public_key(&ephemeral_secret);
    let vault_public = x25519_public_key(&vault_secret);
    let x25519_ss = x25519_diffie_hellman(&ephemeral_secret, &vault_public);
    proof {
        // the vault side computes the same secret from its own key
        assert(x25519_ss@ == x25519_shared(vault_secret@, ephemeral_public@));
    }
    // 2. Kyber
    let cypherpunk = same_text(kem_choice, "cypherpunk");
    let (kyber_sk, kyber_ct, kyber_ss, kem_id) = if cypherpunk {
        let (sk, ct, ss) = kyber1024_encapsulated_keypair();
        (sk, ct, ss, KEM_KYBER1024)
    } else {
        let (sk, ct, ss) = kyber768_encapsulated_keypair();
        (sk, ct, ss, KEM_KYBER768)
    };
    // 3. The combiner
    let hybrid_ss = sha256_concat(kyber_ss.as_slice(), x25519_ss.as_array().as_slice());
    // 4. Pack the payloads
    let ghost kyber_sk_view = kyber_sk@;
    let ghost kyber_ct_view = kyber_ct@;
    let mut combined_sk = kyber_sk;
    combined_sk.extend_from_slice(vault_secret.as_array().as_slice());
    let mut combined_ct = kyber_ct;
    combined_ct.extend_from_slice(ephemeral_public.as_slice());
    proof {
        let ks = combined_sk@.len() - X25519_LEN;
        let kc = combined_ct@.len() - X25519_LEN;
        assert(combined_sk@.subrange(0, ks) =~= kyber_sk_view);
        assert(combined_sk@.subrange(ks, combined_sk@.len() as int) =~= vault_secret@);
        assert(combined_ct@.subrange(0, kc) =~= kyber_ct_view);
        assert(combined_ct@.subrange(kc, combined_ct@.len() as int) =~= ephemeral_public@);
        assert(kyber_shared(kem_id, kyber_ct_view, kyber_sk_view) == kyber_ss@);
    }
    Ok((SecretBytes::new(combined_sk), combined_ct, SecretBytes::new(hybrid_ss), kem_id))
}

/// Hybrid decapsulation: splits the combined secret key and ciphertext into
/// their Kyber and X25519 halves, decapsulates Kyber, performs the X25519
/// Diffie-Hellman and hashes both secrets to restore the hybrid secret.
pub fn decapsulate_hybrid_kem(kem_id: u8, combined_sk: &[u8], combined_ct: &[u8]) -> (r: Result<SecretBytes, VaultError>)
    ensures
        r is Ok <==> hybrid_decapsulation(kem_id, combined_sk@, combined_ct@) is Ok,
        r matches Ok(ss) ==> ss@ == hybrid_decapsulation(kem_id, combined_sk@, combined_ct@)->Ok_0
            && ss@.len() == KEY_LEN,
        r matches Err(e) ==> e == hybrid_decapsulation(kem_id, combined_sk@, combined_ct@)->Err_0,
{
    if combined_sk.len() < X25519_LEN || combined_ct.len() < X25519_LEN {
        return Err(VaultError::PayloadTooShort);
    }
    // Split into the quantum and classical halves
    let kyber_sk_len = combined_sk.len() - X25519_LEN;
    let kyber_ct_len = combined_ct.len() - X25519_LEN;
    let kyber_sk_bytes = slice_subrange(combined_sk, 0, kyber_sk_len);
    let x25519_sk_bytes = slice_subrange(combined_sk, kyber_sk_len, combined_sk.len());
    let kyber_ct_bytes = slice_subrange(combined_ct, 0, kyber_ct_len);
    let x25519_pk_bytes = slice_subrange(combined_ct, kyber_ct_len, combined_ct.len());
    // 1. Kyber decapsulation
    let decapsulated = if kem_id == KEM_KYBER1024 {
        kyber1024_decapsulate(kyber_ct_bytes, kyber_sk_bytes)
    } else {
        kyber768_decapsulate(kyber_ct_bytes, kyber_sk_bytes)
    };
    let kyber_ss = match decapsulated {
        Ok(ss) => ss,
        Err(KyberInput::SecretKey) => return Err(VaultError::InvalidKeyFile),
        Err(KyberInput::Ciphertext) => return Err(VaultError::CompromisedHeader),
    };
    // 2. X25519 Diffie-Hellman
    let vault_secret = to_secret_key32(x25519_sk_bytes);
    let ephemeral_public = to_array32(x25519_pk_bytes);
    let x25519_ss = x25519_diffie_hellman(&vault_secret, &ephemeral_public);
    // 3. The combiner
    let hybrid_ss = sha256_concat(kyber_ss.as_slice(), x25519_ss.as_array().as_slice());
    Ok(SecretBytes::new(hybrid_ss))
}

} // verus!
