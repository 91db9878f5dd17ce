use ombracrypt::crypto::compute_master_key;
use ombracrypt::error::VaultError;
use ombracrypt::primitives::SecretKey;
use ombracrypt::stream::{
    open_chunk, seal_chunk, ChunkOpener, ChunkSealer, CipherSuite, SealStep, CHUNK_SIZE,
};

const KEY: [u8; 32] = [0x11; 32];

/// `KEY` held as a secret key: XOR with zeros leaves it unchanged.
fn secret_key() -> SecretKey {
    compute_master_key(&KEY, &[0u8; 32])
}

fn nonce_for(suite: CipherSuite) -> Vec<u8> {
    (0..suite.nonce_len() as u8).collect()
}

#[test]
fn cipher_selection() {
    assert_eq!(CipherSuite::from_name("aes256gcm"), CipherSuite::Aes256Gcm);
    assert_eq!(CipherSuite::from_name("xchacha20"), CipherSuite::XChaCha20Poly1305);
    assert_eq!(CipherSuite::from_name("AES256GCM"), CipherSuite::XChaCha20Poly1305);
    assert_eq!(CipherSuite::from_id(2), CipherSuite::Aes256Gcm);
    assert_eq!(CipherSuite::from_id(1), CipherSuite::XChaCha20Poly1305);
    assert_eq!(CipherSuite::from_id(7), CipherSuite::XChaCha20Poly1305);
    assert_eq!(CipherSuite::Aes256Gcm.id(), 2);
    assert_eq!(CipherSuite::XChaCha20Poly1305.id(), 1);
    assert_eq!(CipherSuite::Aes256Gcm.nonce_len(), 12);
    assert_eq!(CipherSuite::XChaCha20Poly1305.nonce_len(), 24);
    for suite in [CipherSuite::Aes256Gcm, CipherSuite::XChaCha20Poly1305] {
        assert_eq!(CipherSuite::from_id(suite.id()), suite);
    }
}

#[test]
fn chunk_round_trip_both_ciphers() {
    for suite in [CipherSuite::Aes256Gcm, CipherSuite::XChaCha20Poly1305] {
        let nonce = nonce_for(suite);
        let plaintext = b"attack at dawn".to_vec();
        let sealed = seal_chunk(suite, &KEY, &nonce, 5, true, &plaintext);
        assert_eq!(sealed.len(), plaintext.len() + 16);
        assert_ne!(&sealed[..plaintext.len()], &plaintext[..]);
        assert_eq!(open_chunk(suite, &KEY, &nonce, 5, true, &sealed).unwrap(), plaintext);
    }
}

#[test]
fn chunk_opening_checks_index_flag_key_and_data() {
    for suite in [CipherSuite::Aes256Gcm, CipherSuite::XChaCha20Poly1305] {
        let nonce = nonce_for(suite);
        let sealed = seal_chunk(suite, &KEY, &nonce, 3, false, b"payload");
        assert_eq!(open_chunk(suite, &KEY, &nonce, 4, false, &sealed), Err(VaultError::DecryptionFailed));
        assert_eq!(open_chunk(suite, &KEY, &nonce, 3, true, &sealed), Err(VaultError::DecryptionFailed));
        assert_eq!(open_chunk(suite, &[0x12; 32], &nonce, 3, false, &sealed), Err(VaultError::DecryptionFailed));
        let mut tampered = sealed.clone();
        tampered[0] ^= 1;
        assert_eq!(open_chunk(suite, &KEY, &nonce, 3, false, &tampered), Err(VaultError::DecryptionFailed));
        assert_eq!(open_chunk(suite, &KEY, &nonce, 3, false, &sealed[..10]), Err(VaultError::DecryptionFailed));
    }
}

/// Seals `payload` read in pieces of `piece` bytes and returns the framed
/// chunks written after the header.
fn seal_payload(suite: CipherSuite, payload: &[u8], piece: usize) -> Vec<u8> {
    let mut sealer = ChunkSealer::new(suite, secret_key(), nonce_for(suite), payload.len() as u64);
    let mut out = Vec::new();
    let mut offset = 0;
    loop {
        let end = (offset + piece).min(payload.len());
        match sealer.seal_next(&payload[offset..end]) {
            SealStep::Finished => break,
            SealStep::Frame(bytes, last) => {
                out.extend_from_slice(&bytes);
                offset = end;
                if last {
                    break;
                }
            }
        }
    }
    out
}

/// Opens the framed chunks that follow a header of `header_len` bytes.
fn open_payload(suite: CipherSuite, frames: &[u8], header_len: usize) -> Result<Vec<u8>, VaultError> {
    let total = (header_len + frames.len()) as u64;
    let mut opener = ChunkOpener::new(suite, secret_key(), nonce_for(suite), total, header_len as u64).unwrap();
    let mut out = Vec::new();
    let mut offset = 0;
    loop {
        if offset + 4 > frames.len() {
            break;
        }
        if offset + 4 + ombracrypt::format::frame_length(&frames[offset..offset + 4]) as usize > frames.len() {
            return Err(VaultError::TruncatedVault);
        }
        let len = ombracrypt::format::frame_length(&frames[offset..offset + 4]) as usize;
        let chunk = &frames[offset + 4..offset + 4 + len];
        let (plain, last) = opener.open_next(chunk)?;
        out.extend_from_slice(&plain);
        offset += 4 + len;
        if last {
            break;
        }
    }
    opener.finish()?;
    Ok(out)
}

#[test]
fn stream_round_trip_many_chunks() {
    let payload: Vec<u8> = (0..10_000u32).map(|i| (i * 7 % 256) as u8).collect();
    for suite in [CipherSuite::Aes256Gcm, CipherSuite::XChaCha20Poly1305] {
        let frames = seal_payload(suite, &payload, 1000);
        assert_eq!(frames.len(), 10 * (4 + 1000 + 16));
        assert_eq!(open_payload(suite, &frames, 77).unwrap(), payload);
    }
}

#[test]
fn stream_round_trip_uneven_last_chunk() {
    let payload = vec![0xC3u8; 2500];
    let frames = seal_payload(CipherSuite::Aes256Gcm, &payload, 1000);
    assert_eq!(frames.len(), 3 * 20 + 2500);
    assert_eq!(open_payload(CipherSuite::Aes256Gcm, &frames, 0).unwrap(), payload);
}

#[test]
fn empty_payload_is_one_empty_final_chunk() {
    let mut sealer = ChunkSealer::new(CipherSuite::XChaCha20Poly1305, secret_key(), nonce_for(CipherSuite::XChaCha20Poly1305), 0);
    match sealer.seal_next(&[]) {
        SealStep::Frame(bytes, last) => {
            assert!(last);
            assert_eq!(bytes.len(), 4 + 16);
        }
        SealStep::Finished => panic!("an empty payload still gets a chunk"),
    }
}

#[test]
fn empty_read_after_a_chunk_finishes() {
    let mut sealer = ChunkSealer::new(CipherSuite::Aes256Gcm, secret_key(), nonce_for(CipherSuite::Aes256Gcm), 10);
    // a short read that does not reach the end is not final
    match sealer.seal_next(&[1, 2, 3]) {
        SealStep::Frame(_, last) => assert!(!last),
        SealStep::Finished => panic!(),
    }
    assert_eq!(sealer.processed, 3);
    assert_eq!(sealer.chunk_index, 1);
    // the size grew smaller than announced: an empty read now ends the stream
    sealer.total_size = 3;
    assert!(matches!(sealer.seal_next(&[]), SealStep::Finished));
    assert_eq!(sealer.chunk_index, 1);
}

#[test]
fn full_chunk_size_is_sealed() {
    let payload = vec![1u8; CHUNK_SIZE];
    let frames = seal_payload(CipherSuite::Aes256Gcm, &payload, CHUNK_SIZE);
    assert_eq!(frames.len(), 4 + CHUNK_SIZE + 16);
    assert_eq!(open_payload(CipherSuite::Aes256Gcm, &frames, 100).unwrap(), payload);
}

#[test]
fn reordered_chunks_fail() {
    let payload = vec![0x5Au8; 2000];
    let frames = seal_payload(CipherSuite::XChaCha20Poly1305, &payload, 1000);
    let half = frames.len() / 2;
    let mut swapped = frames[half..].to_vec();
    swapped.extend_from_slice(&frames[..half]);
    assert_eq!(open_payload(CipherSuite::XChaCha20Poly1305, &swapped, 0), Err(VaultError::DecryptionFailed));
}

#[test]
fn truncated_stream_fails_on_final_flag() {
    let payload = vec![0x5Au8; 3000];
    let frames = seal_payload(CipherSuite::Aes256Gcm, &payload, 1000);
    // drop the last frame: the second chunk now looks final but was not sealed so
    let cut = 2 * (4 + 1000 + 16);
    assert_eq!(open_payload(CipherSuite::Aes256Gcm, &frames[..cut], 0), Err(VaultError::DecryptionFailed));
}

#[test]
fn vault_without_final_chunk_is_truncated() {
    // a header with no chunks after it
    assert_eq!(open_payload(CipherSuite::Aes256Gcm, &[], 50), Err(VaultError::TruncatedVault));
    let opener = ChunkOpener::new(CipherSuite::Aes256Gcm, secret_key(), nonce_for(CipherSuite::Aes256Gcm), 50, 50).unwrap();
    assert_eq!(opener.finish(), Err(VaultError::TruncatedVault));
    // a frame cut short
    let frames = seal_payload(CipherSuite::Aes256Gcm, &[9u8; 100], 100);
    assert_eq!(open_payload(CipherSuite::Aes256Gcm, &frames[..frames.len() - 1], 0), Err(VaultError::TruncatedVault));
}

#[test]
fn opener_refuses_nonce_of_wrong_length() {
    assert_eq!(
        ChunkOpener::new(CipherSuite::Aes256Gcm, secret_key(), vec![0u8; 24], 100, 10).err(),
        Some(VaultError::CompromisedHeader)
    );
    assert_eq!(
        ChunkOpener::new(CipherSuite::XChaCha20Poly1305, secret_key(), vec![0u8; 12], 100, 10).err(),
        Some(VaultError::CompromisedHeader)
    );
}
