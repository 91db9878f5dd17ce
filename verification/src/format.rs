//! Byte layouts: the vault header at the start of the `.obv` file, the
//! `.obk` key file, and the framing and associated data of each encrypted
//! chunk.

use vstd::prelude::*;
use vstd::bytes::{
    lemma_auto_spec_u16_to_from_le_bytes, lemma_auto_spec_u32_to_from_le_bytes,
    spec_u16_from_le_bytes, spec_u16_to_le_bytes, spec_u32_from_le_bytes, spec_u32_to_le_bytes,
    spec_u64_to_le_bytes, u16_from_le_bytes, u16_to_le_bytes, u32_from_le_bytes, u32_to_le_bytes,
    u64_to_le_bytes,
};
use vstd::slice::{slice_subrange, slice_to_vec};

use crate::crypto::{PHANTOM_LEN, SALT_LEN};
use crate::error::{HeaderField, VaultError};
use crate::primitives::SecretBytes;

verus! {

// ---------------------------------------------------------------------------
// Vault header
// ---------------------------------------------------------------------------

/// Offset of the nonce length byte: after the two identifiers and the salt.
pub const NONCE_LEN_OFFSET: usize = 18;

/// The unencrypted header of a vault: algorithm identifiers, Argon2 salt,
/// base nonce and the hybrid KEM ciphertext.
pub struct VaultHeader {
    pub cipher_id: u8,
    pub kem_id: u8,
    pub salt: [u8; 16],
    pub nonce: Vec<u8>,
    pub kem_ciphertext: Vec<u8>,
}

/// The header as plain values: (cipher id, KEM id, salt, nonce, KEM
/// ciphertext).
pub type HeaderFields = (u8, u8, Seq<u8>, Seq<u8>, Seq<u8>);

impl VaultHeader {
    pub open spec fn fields(&self) -> HeaderFields {
        (self.cipher_id, self.kem_id, self.salt@, self.nonce@, self.kem_ciphertext@)
    }
}

/// A header can be written when its nonce length fits the length byte and
/// its ciphertext length fits the two length bytes.
pub open spec fn header_encodable(h: HeaderFields) -> bool {
    &&& h.2.len() == SALT_LEN
    &&& h.3.len() <= 0xff
    &&& h.4.len() <= 0xffff
}

/// `[cipher_id, kem_id] ‖ salt ‖ [nonce_len] ‖ nonce ‖ ct_len (u16 LE) ‖ ct`.
pub open spec fn header_bytes(h: HeaderFields) -> Seq<u8> {
    seq![h.0, h.1] + h.2 + seq![h.3.len() as u8] + h.3 + spec_u16_to_le_bytes(h.4.len() as u16) + h.4
}

/// The vault file begins with the written form of header `h`.
pub open spec fn starts_with_header(b: Seq<u8>, h: HeaderFields) -> bool {
    &&& header_encodable(h)
    &&& header_bytes(h).len() <= b.len()
    &&& b.subrange(0, header_bytes(h).len() as int) == header_bytes(h)
}

/// The header field a vault file ends in, when it is too short to hold the
/// header that its length bytes announce.
pub open spec fn truncated_field(b: Seq<u8>) -> HeaderField {
    if b.len() < 2 {
        HeaderField::Identifiers
    } else if b.len() < NONCE_LEN_OFFSET {
        HeaderField::Salt
    } else if b.len() < NONCE_LEN_OFFSET + 1 {
        HeaderField::NonceLength
    } else if b.len() < NONCE_LEN_OFFSET + 1 + b[NONCE_LEN_OFFSET as int] {
        HeaderField::Nonce
    } else if b.len() < NONCE_LEN_OFFSET + 3 + b[NONCE_LEN_OFFSET as int] {
        HeaderField::CiphertextLength
    } else {
        HeaderField::Ciphertext
    }
}

/// What a file that begins with a header shows of it: the nonce length byte,
/// the ciphertext length bytes and every field, at their places.
proof fn lemma_header_prefix_facts(b: Seq<u8>, h: HeaderFields)
    requires
        starts_with_header(b, h),
    ensures
        ({
            let nonce_end = NONCE_LEN_OFFSET + 1 + h.3.len();
            &&& b.len() >= nonce_end + 2 + h.4.len()
            &&& b[NONCE_LEN_OFFSET as int] == h.3.len()
            &&& spec_u16_from_le_bytes(b.subrange(nonce_end, nonce_end + 2)) == h.4.len()
            &&& b[0] == h.0
            &&& b[1] == h.1
            &&& b.subrange(2, NONCE_LEN_OFFSET as int) == h.2
            &&& b.subrange(NONCE_LEN_OFFSET + 1, nonce_end) == h.3
            &&& b.subrange(nonce_end + 2, nonce_end + 2 + h.4.len()) == h.4
        }),
{
    lemma_auto_spec_u16_to_from_le_bytes();
    let hb = header_bytes(h);
    let nonce_end = NONCE_LEN_OFFSET + 1 + h.3.len();
    let p = b.subrange(0, hb.len() as int);
    assert(p[NONCE_LEN_OFFSET as int] == hb[NONCE_LEN_OFFSET as int]);
    assert(p[0] == hb[0] && p[1] == hb[1]);
    assert(b.subrange(nonce_end, nonce_end + 2) =~= hb.subrange(nonce_end, nonce_end + 2));
    assert(hb.subrange(nonce_end, nonce_end + 2) =~= spec_u16_to_le_bytes(h.4.len() as u16));
    assert(b.subrange(2, NONCE_LEN_OFFSET as int) =~= hb.subrange(2, NONCE_LEN_OFFSET as int));
    assert(hb.subrange(2, NONCE_LEN_OFFSET as int) =~= h.2);
    assert(b.subrange(NONCE_LEN_OFFSET + 1, nonce_end) =~= hb.subrange(NONCE_LEN_OFFSET + 1, nonce_end));
    assert(hb.subrange(NONCE_LEN_OFFSET + 1, nonce_end) =~= h.3);
    assert(b.subrange(nonce_end + 2, nonce_end + 2 + h.4.len()) =~= hb.subrange(
        nonce_end + 2,
        hb.len() as int,
    ));
    assert(hb.subrange(nonce_end + 2, hb.len() as int) =~= h.4);
}

/// A file begins with at most one header: the written form of a header
/// determines it and is never the beginning of another header's.
pub proof fn lemma_header_unique(b: Seq<u8>, h1: HeaderFields, h2: HeaderFields)
    requires
        starts_with_header(b, h1),
        starts_with_header(b, h2),
    ensures
        h1 == h2,
{
    lemma_header_prefix_facts(b, h1);
    lemma_header_prefix_facts(b, h2);
    assert(h1.2 =~= h2.2);
    assert(h1.3 =~= h2.3);
    assert(h1.4 =~= h2.4);
}

/// Serialises a vault header.
pub fn encode_vault_header(header: &VaultHeader) -> (bytes: Vec<u8>)
    requires
        header_encodable(header.fields()),
    ensures
        bytes@ == header_bytes(header.fields()),
{
    let mut bytes: Vec<u8> = Vec::new();
    bytes.push(header.cipher_id);
    bytes.push(header.kem_id);
    bytes.extend_from_slice(header.salt.as_slice());
    bytes.push(header.nonce.len() as u8);
    bytes.extend_from_slice(header.nonce.as_slice());
    let ct_len = u16_to_le_bytes(header.kem_ciphertext.len() as u16);
    bytes.extend_from_slice(ct_len.as_slice());
    bytes.extend_from_slice(header.kem_ciphertext.as_slice());
    assert(bytes@ =~= header_bytes(header.fields()));
    bytes
}

/// Copies the salt out of the header bytes.
fn salt_array(s: &[u8]) -> (a: [u8; 16])
    requires
        s@.len() == SALT_LEN,
    ensures
        a@ == s@,
{
    let mut a = [0u8; 16];
    let mut i: usize = 0;
    while i < SALT_LEN
        invariant
            i <= SALT_LEN,
            s@.len() == SALT_LEN,
            a@.len() == SALT_LEN,
            forall|j: int| 0 <= j < i ==> a@[j] == s@[j],
        decreases SALT_LEN - i,
    {
        a[i] = s[i];
        i = i + 1;
    }
    assert(a@ =~= s@);
    a
}

/// Reads the vault header from the first bytes of a vault file, returning it
/// with the number of bytes it takes.  `bytes` may extend past the header.
/// It succeeds exactly when the bytes begin with a header, and that header
/// is unique (`lemma_header_unique`); otherwise it names the field the bytes
/// end in.
pub fn parse_vault_header(bytes: &[u8]) -> (r: Result<(VaultHeader, usize), VaultError>)
    ensures
        r is Ok <==> exists|h: HeaderFields| #[trigger] starts_with_header(bytes@, h),
        r matches Ok((h, n)) ==> starts_with_header(bytes@, h.fields()) && n == header_bytes(
            h.fields(),
        ).len(),
        r matches Err(e) ==> e == VaultError::TruncatedHeader(truncated_field(bytes@)),
{
    let len = bytes.len();
    if len < NONCE_LEN_OFFSET + 1 {
        proof {
            assert forall|h: HeaderFields| !#[trigger] starts_with_header(bytes@, h) by {
                if starts_with_header(bytes@, h) {
                    lemma_header_prefix_facts(bytes@, h);
                }
            }
        }
        if len < 2 {
            return Err(VaultError::TruncatedHeader(HeaderField::Identifiers));
        }
        if len < NONCE_LEN_OFFSET {
            return Err(VaultError::TruncatedHeader(HeaderField::Salt));
        }
        return Err(VaultError::TruncatedHeader(HeaderField::NonceLength));
    }
    let nonce_end = NONCE_LEN_OFFSET + 1 + bytes[NONCE_LEN_OFFSET] as usize;
    if len < nonce_end + 2 {
        proof {
            assert forall|h: HeaderFields| !#[trigger] starts_with_header(bytes@, h) by {
                if starts_with_header(bytes@, h) {
                    lemma_header_prefix_facts(bytes@, h);
                }
            }
        }
        if len < nonce_end {
            return Err(VaultError::TruncatedHeader(HeaderField::Nonce));
        }
        return Err(VaultError::TruncatedHeader(HeaderField::CiphertextLength));
    }
    let ct_len = u16_from_le_bytes(slice_subrange(bytes, nonce_end, nonce_end + 2)) as usize;
    let end = nonce_end + 2 + ct_len;
    if len < end {
        proof {
            assert forall|h: HeaderFields| !#[trigger] starts_with_header(bytes@, h) by {
                if starts_with_header(bytes@, h) {
                    lemma_header_prefix_facts(bytes@, h);
                }
            }
        }
        return Err(VaultError::TruncatedHeader(HeaderField::Ciphertext));
    }
    let header = VaultHeader {
        cipher_id: bytes[0],
        kem_id: bytes[1],
        salt: salt_array(slice_subrange(bytes, 2, NONCE_LEN_OFFSET)),
        nonce: slice_to_vec(slice_subrange(bytes, NONCE_LEN_OFFSET + 1, nonce_end)),
        kem_ciphertext: slice_to_vec(slice_subrange(bytes, nonce_end + 2, end)),
    };
    proof {
        lemma_auto_spec_u16_to_from_le_bytes();
        let f = header.fields();
        assert(bytes@.subrange(nonce_end as int, nonce_end + 2) =~= spec_u16_to_le_bytes(f.4.len() as u16));
        assert(bytes@.subrange(0, end as int) =~= header_bytes(f));
        assert(starts_with_header(bytes@, f));
    }
    Ok((header, end))
}

/// Reading back a written header gives the same header, whatever follows
/// it in the file: the file begins with it, and with no other.
pub proof fn lemma_header_round_trip(h: HeaderFields, rest: Seq<u8>)
    requires
        header_encodable(h),
    ensures
        starts_with_header(header_bytes(h) + rest, h),
        forall|h2: HeaderFields| #[trigger] starts_with_header(header_bytes(h) + rest, h2) ==> h2 == h,
{
    let b = header_bytes(h) + rest;
    assert(b.subrange(0, header_bytes(h).len() as int) =~= header_bytes(h));
    assert forall|h2: HeaderFields| #[trigger] starts_with_header(b, h2) implies h2 == h by {
        lemma_header_unique(b, h, h2);
    }
}

// ---------------------------------------------------------------------------
// Key file
// ---------------------------------------------------------------------------

/// The key file: the combined secret key followed by the phantom block.
pub open spec fn key_file_bytes(secret_key: Seq<u8>, phantom: Seq<u8>) -> Seq<u8> {
    secret_key + phantom
}

/// Splitting a key file into secret key and phantom block (its last 32
/// bytes), or the error for a file too short to hold the block.
pub open spec fn key_file_split(b: Seq<u8>) -> Result<(Seq<u8>, Seq<u8>), VaultError> {
    if b.len() < PHANTOM_LEN {
        Err(VaultError::CorruptKeyFile)
    } else {
        Ok((b.subrange(0, b.len() - PHANTOM_LEN), b.subrange(b.len() - PHANTOM_LEN, b.len() as int)))
    }
}

/// Writes the key file: secret key, then phantom block.
pub fn encode_key_file(secret_key: &[u8], phantom: &[u8]) -> (bytes: SecretBytes)
    ensures
        bytes@ == key_file_bytes(secret_key@, phantom@),
{
    let mut bytes = slice_to_vec(secret_key);
    bytes.extend_from_slice(phantom);
    SecretBytes::new(bytes)
}

/// Splits a key file into the secret key and the phantom block.
pub fn split_key_file(bytes: &[u8]) -> (r: Result<(SecretBytes, Vec<u8>), VaultError>)
    ensures
        r is Ok <==> key_file_split(bytes@) is Ok,
        r matches Ok((sk, phantom)) ==> key_file_split(bytes@)->Ok_0 == (sk@, phantom@),
        r matches Err(e) ==> e == key_file_split(bytes@)->Err_0,
{
    if bytes.len() < PHANTOM_LEN {
        return Err(VaultError::CorruptKeyFile);
    }
    let split_index = bytes.len() - PHANTOM_LEN;
    let secret_key = slice_to_vec(slice_subrange(bytes, 0, split_index));
    let phantom = slice_to_vec(slice_subrange(bytes, split_index, bytes.len()));
    Ok((SecretBytes::new(secret_key), phantom))
}

/// Splitting a written key file gives back its secret key and phantom block.
pub proof fn lemma_key_file_round_trip(secret_key: Seq<u8>, phantom: Seq<u8>)
    requires
        phantom.len() == PHANTOM_LEN,
    ensures
        key_file_split(key_file_bytes(secret_key, phantom)) == Ok::<(Seq<u8>, Seq<u8>), VaultError>(
            (secret_key, phantom),
        ),
{
    let b = key_file_bytes(secret_key, phantom);
    assert(b.subrange(0, b.len() - PHANTOM_LEN) =~= secret_key);
    assert(b.subrange(b.len() - PHANTOM_LEN, b.len() as int) =~= phantom);
}

// ---------------------------------------------------------------------------
// Chunks
// ---------------------------------------------------------------------------

/// Bytes of the length prefix of each encrypted chunk.
pub const FRAME_PREFIX_LEN: usize = 4;

/// The associated data of chunk `index`: its little-endian index followed by
/// 1 for the final chunk and 0 otherwise.
pub open spec fn chunk_aad_bytes(index: u64, is_final: bool) -> Seq<u8> {
    spec_u64_to_le_bytes(index).push(if is_final { 1u8 } else { 0u8 })
}

/// Builds the associated data of a chunk.
pub fn chunk_aad(index: u64, is_final: bool) -> (aad: Vec<u8>)
    ensures
        aad@ == chunk_aad_bytes(index, is_final),
{
    let mut aad = u64_to_le_bytes(index);
    aad.push(if is_final { 1u8 } else { 0u8 });
    aad
}

/// An encrypted chunk as stored: its length (u32 LE), then the bytes.
pub open spec fn frame_bytes(encrypted: Seq<u8>) -> Seq<u8> {
    spec_u32_to_le_bytes(encrypted.len() as u32) + encrypted
}

/// Prefixes an encrypted chunk with its length.
pub fn frame_chunk(encrypted: &[u8]) -> (frame: Vec<u8>)
    requires
        encrypted@.len() <= u32::MAX,
    ensures
        frame@ == frame_bytes(encrypted@),
{
    let mut frame = u32_to_le_bytes(encrypted.len() as u32);
    frame.extend_from_slice(encrypted);
    frame
}

/// Reads the chunk length from a 4-byte prefix.
pub fn frame_length(prefix: &[u8]) -> (len: u32)
    requires
        prefix@.len() == FRAME_PREFIX_LEN,
    ensures
        len == spec_u32_from_le_bytes(prefix@),
{
    u32_from_le_bytes(prefix)
}

/// The length read from a frame's prefix is the length of the chunk it
/// frames, and the chunk follows the prefix.
pub proof fn lemma_frame_round_trip(encrypted: Seq<u8>)
    requires
        encrypted.len() <= u32::MAX,
    ensures
        spec_u32_from_le_bytes(frame_bytes(encrypted).subrange(0, FRAME_PREFIX_LEN as int))
            == encrypted.len(),
        frame_bytes(encrypted).subrange(
            FRAME_PREFIX_LEN as int,
            frame_bytes(encrypted).len() as int,
        ) == encrypted,
{
    lemma_auto_spec_u32_to_from_le_bytes();
    let f = frame_bytes(encrypted);
    assert(f.subrange(0, FRAME_PREFIX_LEN as int) =~= spec_u32_to_le_bytes(encrypted.len() as u32));
    assert(f.subrange(FRAME_PREFIX_LEN as int, f.len() as int) =~= encrypted);
}

} // verus!
