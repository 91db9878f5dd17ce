//! The decisions of sealing and opening a vault, apart from the file and
//! terminal work around them: the password prompts' rules, the key material
//! and header of a new vault, and unlocking a vault with a password (or
//! springing the duress trapdoor).

use vstd::prelude::*;

use crate::crypto::{
    compute_master_key, decapsulate_hybrid_kem, derive_key, derive_key_with_salt,
    generate_hybrid_kem, generate_phantom_block, hybrid_decapsulation, is_blank, is_blank_str,
    key_derivation, kem_id_for, kyber_ciphertext_len, kyber_secret_key_len, master_key_of,
    same_text, utf8, PHANTOM_LEN, SALT_LEN, X25519_LEN,
};
use crate::error::VaultError;
use crate::format::{
    encode_key_file, header_bytes, header_encodable, key_file_split, starts_with_header,
    lemma_header_round_trip, HeaderFields, VaultHeader,
};
use crate::primitives::{
    argon2id_default_hash, fill_random, Argon2Failure, SecretBytes, SecretKey, ARGON2_MAX_INPUT_LEN,
    KEY_LEN,
};
use crate::stream::{
    chunk_opens_to, chunk_sealed, lemma_stream_round_trip, lemma_suite_id_round_trip,
    opener_final_flag, sealer_final_flag, suite_for_id, suite_for_name, CipherSuite, CHUNK_SIZE,
};

verus! {

// ---------------------------------------------------------------------------
// Password prompts
// ---------------------------------------------------------------------------

/// Whether two entered passwords are the same.
pub fn passwords_match(entered: &str, confirmation: &str) -> (r: bool)
    ensures
        r == (entered@ == confirmation@),
{
    same_text(entered, confirmation)
}

/// A master password must not be blank (empty or only white space).
pub fn master_password_acceptable(pin: &str) -> (r: bool)
    ensures
        r == !is_blank(pin@),
{
    !is_blank_str(pin)
}

/// What to do with an entered deception passcode.
#[derive(Clone, Copy, Debug, PartialEq, Eq, Structural)]
pub enum DeceptionCheck {
    /// Nothing was entered: the vault gets no deception passcode.
    Skip,
    /// The passcode is the master password, which is refused.
    SameAsMaster,
    /// The passcode is acceptable once confirmed.
    Confirm,
}

/// Judges an entered deception passcode against the master password.
pub fn check_deception_passcode(passcode: &str, main_pin: &str) -> (r: DeceptionCheck)
    ensures
        passcode@.len() == 0 ==> r == DeceptionCheck::Skip,
        passcode@.len() != 0 && passcode@ == main_pin@ ==> r == DeceptionCheck::SameAsMaster,
        passcode@.len() != 0 && passcode@ != main_pin@ ==> r == DeceptionCheck::Confirm,
{
    if passcode.is_empty() {
        DeceptionCheck::Skip
    } else if passwords_match(passcode, main_pin) {
        DeceptionCheck::SameAsMaster
    } else {
        DeceptionCheck::Confirm
    }
}

// ---------------------------------------------------------------------------
// Sealing: the key material of a new vault
// ---------------------------------------------------------------------------

/// Everything a new vault needs besides its payload: the header to write at
/// the start of the vault file, the key file, and the master key that seals
/// the chunks.
pub struct VaultSetup {
    pub header: VaultHeader,
    pub key_file: SecretBytes,
    pub master_key: SecretKey,
}

/// The relations between the parts of a vault set up for these choices and
/// passwords.  The secret key and phantom block are the two parts of the key
/// file; the hybrid secret is what the secret key decapsulates from the
/// header's ciphertext; the master key is the Argon2 key of the master
/// password XOR that secret; a non-blank deception passcode is hashed into
/// the phantom block under the same salt.
pub open spec fn setup_matches(
    cipher: Seq<char>,
    kem: Seq<char>,
    main_pin: Seq<u8>,
    deception: Seq<char>,
    deception_bytes: Seq<u8>,
    h: HeaderFields,
    key_file: Seq<u8>,
    master_key: Seq<u8>,
) -> bool {
    let suite = suite_for_name(cipher);
    let secret_key = key_file.subrange(0, key_file.len() - PHANTOM_LEN);
    let phantom = key_file.subrange(key_file.len() - PHANTOM_LEN, key_file.len() as int);
    let argon_key = argon2id_default_hash(main_pin, h.2, KEY_LEN as nat);
    &&& h.0 == suite.spec_id()
    &&& h.1 == kem_id_for(kem)
    &&& h.2.len() == SALT_LEN
    &&& h.3.len() == suite.spec_nonce_len()
    &&& h.4.len() == kyber_ciphertext_len(h.1) + X25519_LEN
    &&& header_encodable(h)
    &&& key_file.len() >= PHANTOM_LEN
    &&& hybrid_decapsulation(h.1, secret_key, h.4) is Ok
    &&& master_key == master_key_of(argon_key, hybrid_decapsulation(h.1, secret_key, h.4)->Ok_0)
    &&& !is_blank(deception) ==> phantom == argon2id_default_hash(
        deception_bytes,
        h.2,
        KEY_LEN as nat,
    )
}

/// Sets up a new vault: derives the master password's key under a fresh
/// salt, generates the hybrid KEM, synthesises the master key, builds the
/// phantom block, draws the base nonce for the chosen cipher and lays out
/// the header and the key file.  Only a password too long for Argon2 is
/// refused: the master password's first, then the deception passcode's.
pub fn prepare_vault(cipher: &str, kem: &str, main_pin: &str, deception_passcode: &str) -> (r: Result<VaultSetup, VaultError>)
    ensures
        r is Ok <==> (utf8(main_pin).len() <= ARGON2_MAX_INPUT_LEN && (is_blank(deception_passcode@)
            || utf8(deception_passcode).len() <= ARGON2_MAX_INPUT_LEN)),
        r matches Err(e) ==> (if utf8(main_pin).len() > ARGON2_MAX_INPUT_LEN {
            e == VaultError::KeyDerivation(Argon2Failure::PwdTooLong)
        } else {
            e == VaultError::PhantomDerivation(Argon2Failure::PwdTooLong)
        }),
        r matches Ok(setup) ==> setup_matches(
            cipher@,
            kem@,
            utf8(main_pin),
            deception_passcode@,
            utf8(deception_passcode),
            setup.header.fields(),
            setup.key_file@,
            setup.master_key@,
        ),
{
    let (argon_key, salt) = derive_key(main_pin)?;
    let (secret_key, kem_ciphertext, shared_secret, kem_id) = match generate_hybrid_kem(kem) {
        Ok(generated) => generated,
        Err(e) => return Err(e),
    };
    let master_key = compute_master_key(argon_key.as_array(), shared_secret.as_slice());
    let phantom = generate_phantom_block(deception_passcode, salt.as_slice())?;
    let suite = CipherSuite::from_name(cipher);
    let mut nonce: Vec<u8> = vec![0u8; suite.nonce_len()];
    fill_random(nonce.as_mut_slice());
    let key_file = encode_key_file(secret_key.as_slice(), phantom.as_slice());
    let header = VaultHeader { cipher_id: suite.id(), kem_id, salt, nonce, kem_ciphertext };
    proof {
        let kf = key_file@;
        assert(kf.subrange(0, kf.len() - PHANTOM_LEN) =~= secret_key@);
        assert(kf.subrange(kf.len() - PHANTOM_LEN, kf.len() as int) =~= phantom@);
    }
    Ok(VaultSetup { header, key_file, master_key })
}

// ---------------------------------------------------------------------------
// Opening: unlocking a vault with a password
// ---------------------------------------------------------------------------

/// The outcome of presenting a password to a vault.
pub enum Unlock {
    /// The master key that opens the vault's chunks.
    MasterKey(SecretKey),
    /// The password is the deception passcode: the trapdoor is sprung.
    Duress,
}

/// An unlock outcome as plain values: `Some(master key)`, or `None` for the
/// trapdoor.
pub open spec fn unlock_view(u: Unlock) -> Option<Seq<u8>> {
    match u {
        Unlock::MasterKey(k) => Some(k@),
        Unlock::Duress => None,
    }
}

/// What presenting a password gives: the Argon2 key under the header's salt
/// is compared with the phantom block first, and only otherwise is the KEM
/// decapsulated and the master key synthesised.
pub open spec fn unlock_outcome(secret_key: Seq<u8>, phantom: Seq<u8>, h: HeaderFields, pin: Seq<u8>) -> Result<
    Option<Seq<u8>>,
    VaultError,
> {
    match key_derivation(pin, h.2) {
        Err(e) => Err(e),
        Ok(argon_key) => if argon_key == phantom {
            Ok(None)
        } else {
            match hybrid_decapsulation(h.1, secret_key, h.4) {
                Err(e) => Err(e),
                Ok(ss) => Ok(Some(master_key_of(argon_key, ss))),
            }
        },
    }
}

/// Whether two byte strings are equal.
fn bytes_equal(a: &[u8], b: &[u8]) -> (r: bool)
    ensures
        r == (a@ == b@),
{
    if a.len() != b.len() {
        return false;
    }
    let mut i: usize = 0;
    while i < a.len()
        invariant
            a@.len() == b@.len(),
            i <= a@.len(),
            forall|j: int| 0 <= j < i ==> a@[j] == b@[j],
        decreases a@.len() - i,
    {
        if a[i] != b[i] {
            return false;
        }
        i = i + 1;
    }
    assert(a@ =~= b@);
    true
}

/// Unlocks a vault: derives the key of the entered password under the
/// header's salt; if it equals the phantom block the duress trapdoor is
/// sprung, otherwise the hybrid KEM is decapsulated and the master key
/// synthesised.
pub fn unlock_vault(secret_key: &[u8], phantom: &[u8], header: &VaultHeader, main_pin: &str) -> (r: Result<Unlock, VaultError>)
    ensures
        r is Ok <==> unlock_outcome(secret_key@, phantom@, header.fields(), utf8(main_pin)) is Ok,
        r matches Ok(u) ==> unlock_view(u) == unlock_outcome(
            secret_key@,
            phantom@,
            header.fields(),
            utf8(main_pin),
        )->Ok_0,
        r matches Err(e) ==> e == unlock_outcome(
            secret_key@,
            phantom@,
            header.fields(),
            utf8(main_pin),
        )->Err_0,
{
    let argon_key = derive_key_with_salt(main_pin, header.salt.as_slice())?;
    if bytes_equal(argon_key.as_array().as_slice(), phantom) {
        return Ok(Unlock::Duress);
    }
    let shared_secret = decapsulate_hybrid_kem(
        header.kem_id,
        secret_key,
        header.kem_ciphertext.as_slice(),
    )?;
    Ok(Unlock::MasterKey(compute_master_key(argon_key.as_array(), shared_secret.as_slice())))
}

// ---------------------------------------------------------------------------
// Laws
// ---------------------------------------------------------------------------

/// The master password unlocks the vault it set up: splitting the key file
/// and presenting the master password gives back the master key that sealed
/// the chunks.  This needs the Argon2 key of the master password to differ
/// from the phantom block (a random block, or the hash of a different
/// passcode).
pub proof fn lemma_master_password_unlocks(
    cipher: Seq<char>,
    kem: Seq<char>,
    main_pin: Seq<u8>,
    deception: Seq<char>,
    deception_bytes: Seq<u8>,
    h: HeaderFields,
    key_file: Seq<u8>,
    master_key: Seq<u8>,
)
    requires
        setup_matches(cipher, kem, main_pin, deception, deception_bytes, h, key_file, master_key),
        main_pin.len() <= ARGON2_MAX_INPUT_LEN,
        argon2id_default_hash(main_pin, h.2, KEY_LEN as nat) != key_file_split(key_file)->Ok_0.1,
    ensures
        key_file_split(key_file) is Ok,
        unlock_outcome(
            key_file_split(key_file)->Ok_0.0,
            key_file_split(key_file)->Ok_0.1,
            h,
            main_pin,
        ) == Ok::<Option<Seq<u8>>, VaultError>(Some(master_key)),
{
}

/// The duress trapdoor: presenting a non-blank deception passcode to the
/// vault it was set up with springs the trapdoor instead of unlocking.
pub proof fn lemma_deception_passcode_springs_trapdoor(
    cipher: Seq<char>,
    kem: Seq<char>,
    main_pin: Seq<u8>,
    deception: Seq<char>,
    deception_bytes: Seq<u8>,
    h: HeaderFields,
    key_file: Seq<u8>,
    master_key: Seq<u8>,
)
    requires
        setup_matches(cipher, kem, main_pin, deception, deception_bytes, h, key_file, master_key),
        !is_blank(deception),
        deception_bytes.len() <= ARGON2_MAX_INPUT_LEN,
    ensures
        unlock_outcome(
            key_file_split(key_file)->Ok_0.0,
            key_file_split(key_file)->Ok_0.1,
            h,
            deception_bytes,
        ) == Ok::<Option<Seq<u8>>, VaultError>(None),
{
}

/// Every key file of a KEM profile has the same size, whether or not a
/// deception passcode was set: the combined secret key of the profile
/// followed by the 32-byte phantom block.
pub proof fn lemma_key_file_footprint(
    cipher: Seq<char>,
    kem: Seq<char>,
    main_pin: Seq<u8>,
    deception: Seq<char>,
    deception_bytes: Seq<u8>,
    h: HeaderFields,
    key_file: Seq<u8>,
    master_key: Seq<u8>,
)
    requires
        setup_matches(cipher, kem, main_pin, deception, deception_bytes, h, key_file, master_key),
    ensures
        key_file.len() == kyber_secret_key_len(kem_id_for(kem)) + X25519_LEN + PHANTOM_LEN,
{
}

/// A vault opens with its master password: the header written at the start
/// of the vault file reads back as written, whatever chunks follow it; the
/// key file splits back into its parts; the master password yields the
/// master key that sealed the chunks; the cipher read from the header is the
/// one chosen by name; and chunk `k` of a payload read in chunks, sealed
/// with the sealer's final flag, is opened with the same flag at the
/// opener's position and gives back its plaintext.
pub proof fn lemma_vault_round_trip(
    cipher: Seq<char>,
    kem: Seq<char>,
    main_pin: Seq<u8>,
    deception: Seq<char>,
    deception_bytes: Seq<u8>,
    h: HeaderFields,
    key_file: Seq<u8>,
    master_key: Seq<u8>,
    chunks: Seq<Seq<u8>>,
    frames: Seq<u8>,
    k: int,
)
    requires
        setup_matches(cipher, kem, main_pin, deception, deception_bytes, h, key_file, master_key),
        main_pin.len() <= ARGON2_MAX_INPUT_LEN,
        argon2id_default_hash(main_pin, h.2, KEY_LEN as nat) != key_file_split(key_file)->Ok_0.1,
        0 <= k < chunks.len(),
        forall|i: int| 0 < i < chunks.len() ==> #[trigger] chunks[i].len() > 0,
        forall|i: int| 0 <= i < chunks.len() ==> #[trigger] chunks[i].len() <= CHUNK_SIZE,
    ensures
        starts_with_header(header_bytes(h) + frames, h),
        forall|h2: HeaderFields| #[trigger] starts_with_header(header_bytes(h) + frames, h2) ==> h2 == h,
        key_file_split(key_file) == Ok::<(Seq<u8>, Seq<u8>), VaultError>(
            (
                key_file.subrange(0, key_file.len() - PHANTOM_LEN),
                key_file.subrange(key_file.len() - PHANTOM_LEN, key_file.len() as int),
            ),
        ),
        unlock_outcome(
            key_file_split(key_file)->Ok_0.0,
            key_file_split(key_file)->Ok_0.1,
            h,
            main_pin,
        ) == Ok::<Option<Seq<u8>>, VaultError>(Some(master_key)),
        suite_for_id(h.0) == suite_for_name(cipher),
        sealer_final_flag(chunks, k) == (k == chunks.len() - 1),
        opener_final_flag(chunks, header_bytes(h).len(), k) == (k == chunks.len() - 1),
        chunk_opens_to(
            suite_for_id(h.0),
            master_key,
            h.3,
            k as u64,
            k == chunks.len() - 1,
            chunk_sealed(suite_for_name(cipher), master_key, h.3, k as u64, k == chunks.len() - 1, chunks[k]),
            chunks[k],
        ),
{
    lemma_header_round_trip(h, frames);
    lemma_master_password_unlocks(cipher, kem, main_pin, deception, deception_bytes, h, key_file, master_key);
    lemma_suite_id_round_trip(suite_for_name(cipher));
    lemma_stream_round_trip(suite_for_name(cipher), master_key, h.3, chunks, header_bytes(h).len(), k);
}

} // verus!
