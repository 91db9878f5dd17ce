//! The chunked AEAD stream that carries the archived payload: the cipher
//! choice, sealing and opening one chunk, and the two state machines that
//! walk a payload chunk by chunk.

use vstd::prelude::*;
use vstd::bytes::{lemma_auto_spec_u64_to_from_le_bytes, spec_u64_from_le_bytes};

use crate::crypto::{increment_nonce, incremented_nonce, same_text};
use crate::error::VaultError;
use crate::format::{chunk_aad, chunk_aad_bytes, frame_bytes, frame_chunk, FRAME_PREFIX_LEN};
use crate::primitives::{
    aes256gcm_decrypt, aes256gcm_encrypt, aes256gcm_sealed, xchacha20poly1305_decrypt,
    xchacha20poly1305_encrypt, xchacha20poly1305_sealed, SecretKey, AEAD_MAX_LEN, AEAD_TAG_LEN,
};

verus! {

/// Plaintext bytes per chunk: the 1 MB memory ceiling of the stream.
pub const CHUNK_SIZE: usize = 1048576;

/// Cipher identifier written to the vault header for AES-256-GCM.
pub const CIPHER_AES256GCM: u8 = 2;

/// Cipher identifier written to the vault header for XChaCha20-Poly1305.
pub const CIPHER_XCHACHA20: u8 = 1;

/// The two AEAD ciphers a vault can be sealed with.
#[derive(Clone, Copy, Debug, PartialEq, Eq, Structural)]
pub enum CipherSuite {
    Aes256Gcm,
    XChaCha20Poly1305,
}

/// The cipher a name selects: "aes256gcm" selects AES-256-GCM, any other
/// name XChaCha20-Poly1305.
pub open spec fn suite_for_name(name: Seq<char>) -> CipherSuite {
    if name == "aes256gcm"@ {
        CipherSuite::Aes256Gcm
    } else {
        CipherSuite::XChaCha20Poly1305
    }
}

/// The cipher an identifier from the vault header selects: 2 selects
/// AES-256-GCM, any other identifier XChaCha20-Poly1305.
pub open spec fn suite_for_id(id: u8) -> CipherSuite {
    if id == CIPHER_AES256GCM {
        CipherSuite::Aes256Gcm
    } else {
        CipherSuite::XChaCha20Poly1305
    }
}

impl CipherSuite {
    pub open spec fn spec_id(self) -> u8 {
        match self {
            CipherSuite::Aes256Gcm => CIPHER_AES256GCM,
            CipherSuite::XChaCha20Poly1305 => CIPHER_XCHACHA20,
        }
    }

    pub open spec fn spec_nonce_len(self) -> nat {
        match self {
            CipherSuite::Aes256Gcm => 12,
            CipherSuite::XChaCha20Poly1305 => 24,
        }
    }

    /// The cipher chosen by name on the command line.
    pub fn from_name(name: &str) -> (suite: CipherSuite)
        ensures
            suite == suite_for_name(name@),
    {
        if same_text(name, "aes256gcm") {
            CipherSuite::Aes256Gcm
        } else {
            CipherSuite::XChaCha20Poly1305
        }
    }

    /// The cipher recorded in a vault header.
    pub fn from_id(id: u8) -> (suite: CipherSuite)
        ensures
            suite == suite_for_id(id),
    {
        if id == CIPHER_AES256GCM {
            CipherSuite::Aes256Gcm
        } else {
            CipherSuite::XChaCha20Poly1305
        }
    }

    /// The identifier written to the vault header.
    pub fn id(&self) -> (id: u8)
        ensures
            id == self.spec_id(),
    {
        match self {
            CipherSuite::Aes256Gcm => CIPHER_AES256GCM,
            CipherSuite::XChaCha20Poly1305 => CIPHER_XCHACHA20,
        }
    }

    /// Length of the random base nonce: 12 bytes for AES-256-GCM, 24 for
    /// XChaCha20-Poly1305.
    pub fn nonce_len(&self) -> (n: usize)
        ensures
            n == self.spec_nonce_len(),
    {
        match self {
            CipherSuite::Aes256Gcm => 12,
            CipherSuite::XChaCha20Poly1305 => 24,
        }
    }
}

/// Reading back the identifier of a cipher selects the same cipher.
pub proof fn lemma_suite_id_round_trip(suite: CipherSuite)
    ensures
        suite_for_id(suite.spec_id()) == suite,
{
}

/// A chunk plaintext of this length can be sealed into a frame: its
/// ciphertext, tag included, fits the frame's u32 length.
pub open spec fn sealable_len(len: nat) -> bool {
    len + AEAD_TAG_LEN <= AEAD_MAX_LEN
}

/// The AEAD output of a cipher.
pub open spec fn sealed(suite: CipherSuite, key: Seq<u8>, nonce: Seq<u8>, plaintext: Seq<u8>, aad: Seq<u8>) -> Seq<u8> {
    match suite {
        CipherSuite::Aes256Gcm => aes256gcm_sealed(key, nonce, plaintext, aad),
        CipherSuite::XChaCha20Poly1305 => xchacha20poly1305_sealed(key, nonce, plaintext, aad),
    }
}

/// Chunk `index` of a vault: sealed under the master key with the derived
/// nonce and with its index and final flag as associated data.
pub open spec fn chunk_sealed(
    suite: CipherSuite,
    key: Seq<u8>,
    base_nonce: Seq<u8>,
    index: u64,
    is_final: bool,
    plaintext: Seq<u8>,
) -> Seq<u8> {
    sealed(suite, key, incremented_nonce(base_nonce, index), plaintext, chunk_aad_bytes(index, is_final))
}

/// Every chunk is sealed with the chunk's own nonce and with nine bytes of
/// associated data: eight that read back, little-endian, as the chunk's
/// index, then one flag byte that is 1 for the final chunk and 0 for any
/// other.  A chunk therefore opens only at its own position and with its own
/// final flag.
pub proof fn lemma_chunk_associated_data(
    suite: CipherSuite,
    key: Seq<u8>,
    base_nonce: Seq<u8>,
    index: u64,
    is_final: bool,
    plaintext: Seq<u8>,
)
    ensures
        exists|aad: Seq<u8>|
            {
                &&& #[trigger] sealed(suite, key, incremented_nonce(base_nonce, index), plaintext, aad)
                    == chunk_sealed(suite, key, base_nonce, index, is_final, plaintext)
                &&& aad.len() == 9
                &&& spec_u64_from_le_bytes(aad.subrange(0, 8)) == index
                &&& (is_final ==> aad[8] == 1u8)
                &&& (!is_final ==> aad[8] == 0u8)
            },
{
    lemma_auto_spec_u64_to_from_le_bytes();
    let aad = chunk_aad_bytes(index, is_final);
    assert(aad.subrange(0, 8) =~= vstd::bytes::spec_u64_to_le_bytes(index));
    assert(sealed(suite, key, incremented_nonce(base_nonce, index), plaintext, aad) == chunk_sealed(
        suite,
        key,
        base_nonce,
        index,
        is_final,
        plaintext,
    ));
}

/// `plaintext` is what the encrypted chunk `encrypted` carries at this index
/// with this final flag.
pub open spec fn chunk_opens_to(
    suite: CipherSuite,
    key: Seq<u8>,
    base_nonce: Seq<u8>,
    index: u64,
    is_final: bool,
    encrypted: Seq<u8>,
    plaintext: Seq<u8>,
) -> bool {
    &&& sealable_len(plaintext.len())
    &&& chunk_sealed(suite, key, base_nonce, index, is_final, plaintext) == encrypted
}

/// Seals one chunk.
pub fn seal_chunk(
    suite: CipherSuite,
    key: &[u8; 32],
    base_nonce: &[u8],
    index: u64,
    is_final: bool,
    plaintext: &[u8],
) -> (c: Vec<u8>)
    requires
        base_nonce@.len() == suite.spec_nonce_len(),
        sealable_len(plaintext@.len()),
    ensures
        c@ == chunk_sealed(suite, key@, base_nonce@, index, is_final, plaintext@),
        c@.len() == plaintext@.len() + AEAD_TAG_LEN,
        chunk_opens_to(suite, key@, base_nonce@, index, is_final, c@, plaintext@),
{
    let aad = chunk_aad(index, is_final);
    proof {
        lemma_auto_spec_u64_to_from_le_bytes();
        assert(aad@.len() == 9);
    }
    let nonce = increment_nonce(base_nonce, index);
    let sealed = match suite {
        CipherSuite::Aes256Gcm => aes256gcm_encrypt(key, nonce.as_slice(), plaintext, aad.as_slice()),
        CipherSuite::XChaCha20Poly1305 => xchacha20poly1305_encrypt(
            key,
            nonce.as_slice(),
            plaintext,
            aad.as_slice(),
        ),
    };
    sealed.unwrap()
}

/// Opens one chunk.  It succeeds exactly when the encrypted bytes are the
/// sealing of some plaintext at this index with this final flag under this
/// key, and then gives back that plaintext.
pub fn open_chunk(
    suite: CipherSuite,
    key: &[u8; 32],
    base_nonce: &[u8],
    index: u64,
    is_final: bool,
    encrypted: &[u8],
) -> (r: Result<Vec<u8>, VaultError>)
    requires
        base_nonce@.len() == suite.spec_nonce_len(),
        encrypted@.len() <= AEAD_MAX_LEN,
    ensures
        r matches Ok(p) ==> chunk_opens_to(suite, key@, base_nonce@, index, is_final, encrypted@, p@),
        forall|p: Seq<u8>|
            #[trigger] chunk_opens_to(suite, key@, base_nonce@, index, is_final, encrypted@, p)
                ==> r is Ok && r->Ok_0@ == p,
        r matches Err(e) ==> e == VaultError::DecryptionFailed,
{
    let aad = chunk_aad(index, is_final);
    proof {
        lemma_auto_spec_u64_to_from_le_bytes();
        assert(aad@.len() == 9);
    }
    let nonce = increment_nonce(base_nonce, index);
    let opened = match suite {
        CipherSuite::Aes256Gcm => aes256gcm_decrypt(key, nonce.as_slice(), encrypted, aad.as_slice()),
        CipherSuite::XChaCha20Poly1305 => xchacha20poly1305_decrypt(
            key,
            nonce.as_slice(),
            encrypted,
            aad.as_slice(),
        ),
    };
    match opened {
        Some(p) => Ok(p),
        None => Err(VaultError::DecryptionFailed),
    }
}

// ---------------------------------------------------------------------------
// Walking a payload
// ---------------------------------------------------------------------------

/// What sealing the next piece of the payload gives.
pub enum SealStep {
    /// The payload ended on the previous chunk: nothing more is written.
    Finished,
    /// A framed encrypted chunk to append to the vault, and whether it is
    /// the final one.
    Frame(Vec<u8>, bool),
}

/// The encrypting side of the stream: seals the archived payload chunk by
/// chunk, tracking how much of it has been consumed.
pub struct ChunkSealer {
    pub suite: CipherSuite,
    pub key: SecretKey,
    pub base_nonce: Vec<u8>,
    /// Size of the whole plaintext payload.
    pub total_size: u64,
    /// Plaintext bytes sealed so far.
    pub processed: u64,
    /// Index of the next chunk.
    pub chunk_index: u64,
}

impl ChunkSealer {
    pub open spec fn well_formed(&self) -> bool {
        self.base_nonce@.len() == self.suite.spec_nonce_len()
    }

    /// Starts sealing a payload of `total_size` bytes.
    pub fn new(suite: CipherSuite, key: SecretKey, base_nonce: Vec<u8>, total_size: u64) -> (s: ChunkSealer)
        requires
            base_nonce@.len() == suite.spec_nonce_len(),
        ensures
            s.well_formed(),
            s.suite == suite,
            s.key == key,
            s.base_nonce@ == base_nonce@,
            s.total_size == total_size,
            s.processed == 0,
            s.chunk_index == 0,
    {
        ChunkSealer { suite, key, base_nonce, total_size, processed: 0, chunk_index: 0 }
    }

    /// Seals the next piece read from the payload (at most one chunk).  The
    /// piece is final once everything up to its end has been read.  An empty
    /// final piece after at least one chunk ends the stream; an empty
    /// payload is still sealed as one empty chunk.
    pub fn seal_next(&mut self, plaintext: &[u8]) -> (r: SealStep)
        requires
            old(self).well_formed(),
            plaintext@.len() <= CHUNK_SIZE,
            old(self).processed + plaintext@.len() <= u64::MAX,
            old(self).chunk_index < u64::MAX,
        ensures
            final(self).well_formed(),
            final(self).suite == old(self).suite,
            final(self).key == old(self).key,
            final(self).base_nonce@ == old(self).base_nonce@,
            final(self).total_size == old(self).total_size,
            ({
                let fin = old(self).processed + plaintext@.len() >= old(self).total_size;
                if plaintext@.len() == 0 && fin && old(self).chunk_index > 0 {
                    &&& r is Finished
                    &&& final(self).processed == old(self).processed
                    &&& final(self).chunk_index == old(self).chunk_index
                } else {
                    &&& r matches SealStep::Frame(bytes, last) && last == fin && bytes@ == frame_bytes(
                        chunk_sealed(
                            old(self).suite,
                            old(self).key@,
                            old(self).base_nonce@,
                            old(self).chunk_index,
                            fin,
                            plaintext@,
                        ),
                    )
                    &&& final(self).processed == old(self).processed + plaintext@.len()
                    &&& final(self).chunk_index == old(self).chunk_index + 1
                }
            }),
    {
        let len = plaintext.len() as u64;
        let is_final = self.processed + len >= self.total_size;
        if plaintext.len() == 0 && is_final && self.chunk_index > 0 {
            return SealStep::Finished;
        }
        let encrypted = seal_chunk(
            self.suite,
            self.key.as_array(),
            self.base_nonce.as_slice(),
            self.chunk_index,
            is_final,
            plaintext,
        );
        let frame = frame_chunk(encrypted.as_slice());
        self.processed = self.processed + len;
        self.chunk_index = self.chunk_index + 1;
        SealStep::Frame(frame, is_final)
    }
}

/// The decrypting side of the stream: opens the framed chunks that follow
/// the header in the vault file, tracking the position in that file.
pub struct ChunkOpener {
    pub suite: CipherSuite,
    pub key: SecretKey,
    pub base_nonce: Vec<u8>,
    /// Size of the whole vault file.
    pub total_size: u64,
    /// Bytes of the vault file consumed so far (header and frames).
    pub position: u64,
    /// Index of the next chunk.
    pub chunk_index: u64,
    /// Whether the chunk that reaches the end of the file has been opened.
    pub final_seen: bool,
}

impl ChunkOpener {
    pub open spec fn well_formed(&self) -> bool {
        self.base_nonce@.len() == self.suite.spec_nonce_len()
    }

    /// Starts opening the chunks of a vault file of `total_size` bytes whose
    /// header ends at `position`.  A base nonce of another length than the
    /// cipher takes means the header is compromised.
    pub fn new(suite: CipherSuite, key: SecretKey, base_nonce: Vec<u8>, total_size: u64, position: u64) -> (r: Result<ChunkOpener, VaultError>)
        ensures
            r is Ok <==> base_nonce@.len() == suite.spec_nonce_len(),
            r matches Err(e) ==> e == VaultError::CompromisedHeader,
            r matches Ok(s) ==> {
                &&& s.well_formed()
                &&& s.suite == suite
                &&& s.key == key
                &&& s.base_nonce@ == base_nonce@
                &&& s.total_size == total_size
                &&& s.position == position
                &&& s.chunk_index == 0
                &&& !s.final_seen
            },
    {
        if base_nonce.len() != suite.nonce_len() {
            return Err(VaultError::CompromisedHeader);
        }
        Ok(ChunkOpener { suite, key, base_nonce, total_size, position, chunk_index: 0, final_seen: false })
    }

    /// Opens the next encrypted chunk, read after its 4-byte length prefix.
    /// The chunk is final when it reaches the end of the vault file.
    pub fn open_next(&mut self, encrypted: &[u8]) -> (r: Result<(Vec<u8>, bool), VaultError>)
        requires
            old(self).well_formed(),
            encrypted@.len() <= AEAD_MAX_LEN,
            old(self).position + FRAME_PREFIX_LEN + encrypted@.len() <= u64::MAX,
            old(self).chunk_index < u64::MAX,
        ensures
            final(self).well_formed(),
            final(self).suite == old(self).suite,
            final(self).key == old(self).key,
            final(self).base_nonce@ == old(self).base_nonce@,
            final(self).total_size == old(self).total_size,
            final(self).position == old(self).position + FRAME_PREFIX_LEN + encrypted@.len(),
            final(self).chunk_index == old(self).chunk_index + 1,
            ({
                let fin = final(self).position >= old(self).total_size;
                &&& r matches Ok((p, last)) ==> last == fin && chunk_opens_to(
                    old(self).suite,
                    old(self).key@,
                    old(self).base_nonce@,
                    old(self).chunk_index,
                    fin,
                    encrypted@,
                    p@,
                )
                &&& forall|p: Seq<u8>|
                    #[trigger] chunk_opens_to(
                        old(self).suite,
                        old(self).key@,
                        old(self).base_nonce@,
                        old(self).chunk_index,
                        fin,
                        encrypted@,
                        p,
                    ) ==> r is Ok && r->Ok_0.0@ == p && r->Ok_0.1 == fin
                &&& final(self).final_seen == (if r is Ok { fin } else { old(self).final_seen })
            }),
            r matches Err(e) ==> e == VaultError::DecryptionFailed,
    {
        self.position = self.position + FRAME_PREFIX_LEN as u64 + encrypted.len() as u64;
        let is_final = self.position >= self.total_size;
        let index = self.chunk_index;
        self.chunk_index = self.chunk_index + 1;
        let opened = open_chunk(
            self.suite,
            self.key.as_array(),
            self.base_nonce.as_slice(),
            index,
            is_final,
            encrypted,
        );
        match opened {
            Ok(p) => {
                self.final_seen = is_final;
                Ok((p, is_final))
            },
            Err(e) => Err(e),
        }
    }

    /// Ends the stream: the vault is whole only if the chunk reaching the end
    /// of the file was opened.  A vault whose chunks stop early, or that has
    /// none, was truncated.
    pub fn finish(&self) -> (r: Result<(), VaultError>)
        ensures
            r is Ok <==> self.final_seen,
            r matches Err(e) ==> e == VaultError::TruncatedVault,
    {
        if self.final_seen {
            Ok(())
        } else {
            Err(VaultError::TruncatedVault)
        }
    }
}

// ---------------------------------------------------------------------------
// The sealer and the opener agree on every chunk
// ---------------------------------------------------------------------------

/// Plaintext bytes in the first `k` chunks of a payload.
pub open spec fn payload_len(chunks: Seq<Seq<u8>>, k: int) -> nat
    decreases k,
{
    if k <= 0 {
        0
    } else {
        payload_len(chunks, k - 1) + chunks[k - 1].len()
    }
}

/// Vault-file bytes taken by the frames of the first `k` chunks: each is a
/// 4-byte length, the ciphertext and the 16-byte tag.
pub open spec fn frames_len(chunks: Seq<Seq<u8>>, k: int) -> nat
    decreases k,
{
    if k <= 0 {
        0
    } else {
        frames_len(chunks, k - 1) + (FRAME_PREFIX_LEN as nat) + chunks[k - 1].len() + (AEAD_TAG_LEN as nat)
    }
}

/// The final flag the sealer gives chunk `k`: all of the payload has been
/// read once it is sealed.
pub open spec fn sealer_final_flag(chunks: Seq<Seq<u8>>, k: int) -> bool {
    payload_len(chunks, k) + chunks[k].len() >= payload_len(chunks, chunks.len() as int)
}

/// The final flag the opener gives chunk `k` of a vault file whose header
/// takes `header_len` bytes: its frame reaches the end of the file.
pub open spec fn opener_final_flag(chunks: Seq<Seq<u8>>, header_len: nat, k: int) -> bool {
    header_len + frames_len(chunks, k) + FRAME_PREFIX_LEN + chunks[k].len() + AEAD_TAG_LEN
        >= header_len + frames_len(chunks, chunks.len() as int)
}

proof fn lemma_frames_len_grows(chunks: Seq<Seq<u8>>, k: int, j: int)
    requires
        0 <= k < j <= chunks.len(),
    ensures
        frames_len(chunks, j) >= frames_len(chunks, k) + (FRAME_PREFIX_LEN + AEAD_TAG_LEN) * (j - k),
    decreases j - k,
{
    if j - 1 > k {
        lemma_frames_len_grows(chunks, k, j - 1);
    }
}

proof fn lemma_payload_len_grows(chunks: Seq<Seq<u8>>, k: int, j: int)
    requires
        0 <= k < j <= chunks.len(),
        forall|i: int| k <= i < j ==> #[trigger] chunks[i].len() > 0,
    ensures
        payload_len(chunks, j) > payload_len(chunks, k),
    decreases j - k,
{
    if j - 1 > k {
        lemma_payload_len_grows(chunks, k, j - 1);
    }
}

/// The payload read in chunks, where every chunk after the first holds at
/// least one byte (a read returns nothing only at the end of the payload),
/// is sealed and opened consistently: the sealer and the opener both mark
/// exactly the last chunk final, chunk `k` is sealed and opened at index
/// `k`, and what the sealer writes for it opens back to it.
pub proof fn lemma_stream_round_trip(
    suite: CipherSuite,
    key: Seq<u8>,
    base_nonce: Seq<u8>,
    chunks: Seq<Seq<u8>>,
    header_len: nat,
    k: int,
)
    requires
        0 <= k < chunks.len(),
        forall|i: int| 0 < i < chunks.len() ==> #[trigger] chunks[i].len() > 0,
        forall|i: int| 0 <= i < chunks.len() ==> #[trigger] chunks[i].len() <= CHUNK_SIZE,
    ensures
        sealer_final_flag(chunks, k) == (k == chunks.len() - 1),
        opener_final_flag(chunks, header_len, k) == (k == chunks.len() - 1),
        chunk_opens_to(
            suite,
            key,
            base_nonce,
            k as u64,
            k == chunks.len() - 1,
            chunk_sealed(suite, key, base_nonce, k as u64, k == chunks.len() - 1, chunks[k]),
            chunks[k],
        ),
{
    let n = chunks.len() as int;
    assert(chunks[k].len() <= CHUNK_SIZE);
    if k < n - 1 {
        lemma_payload_len_grows(chunks, k + 1, n);
        lemma_frames_len_grows(chunks, k + 1, n);
        assert(payload_len(chunks, k + 1) == payload_len(chunks, k) + chunks[k].len());
        assert(frames_len(chunks, k + 1) == frames_len(chunks, k) + FRAME_PREFIX_LEN + chunks[k].len()
            + AEAD_TAG_LEN);
    }
}

} // verus!
