use ombracrypt::crypto::{
    compute_master_key, decapsulate_hybrid_kem, derive_key, derive_key_with_salt,
    generate_hybrid_kem, generate_phantom_block, increment_nonce, is_blank_str,
};
use ombracrypt::error::VaultError;
use ombracrypt::primitives::Argon2Failure;

#[test]
fn nonce_of_chunk_zero_is_base() {
    let base: Vec<u8> = (0u8..24).collect();
    assert_eq!(increment_nonce(&base, 0), base);
}

#[test]
fn nonce_xors_counter_into_last_eight_bytes() {
    let base = [0xAAu8; 12];
    let nonce = increment_nonce(&base, 0x0102_0304_0506_0708);
    assert_eq!(
        nonce,
        vec![0xAA, 0xAA, 0xAA, 0xAA, 0xAA ^ 0x08, 0xAA ^ 0x07, 0xAA ^ 0x06, 0xAA ^ 0x05, 0xAA ^ 0x04, 0xAA ^ 0x03, 0xAA ^ 0x02, 0xAA ^ 0x01]
    );
}

#[test]
fn nonce_of_exactly_eight_bytes_is_counter_xor() {
    let base = [0u8; 8];
    assert_eq!(increment_nonce(&base, 1), vec![1, 0, 0, 0, 0, 0, 0, 0]);
    assert_eq!(increment_nonce(&base, u64::MAX), vec![0xFF; 8]);
}

#[test]
fn nonces_of_distinct_chunks_differ() {
    let base = [7u8; 24];
    let mut seen = Vec::new();
    for counter in 0u64..64 {
        let n = increment_nonce(&base, counter);
        assert!(!seen.contains(&n));
        seen.push(n);
    }
    assert_ne!(increment_nonce(&base, 1 << 40), increment_nonce(&base, 1 << 41));
}

#[test]
fn nonce_counter_applied_twice_cancels() {
    let base: Vec<u8> = (100u8..112).collect();
    let once = increment_nonce(&base, 987654321);
    assert_ne!(once, base);
    assert_eq!(increment_nonce(&once, 987654321), base);
}

#[test]
fn master_key_is_bytewise_xor() {
    let mut argon = [0u8; 32];
    let mut ss = vec![0u8; 40];
    for i in 0..32 {
        argon[i] = i as u8;
        ss[i] = 0xF0;
    }
    ss[35] = 9;
    let key = compute_master_key(&argon, &ss);
    for i in 0..32 {
        assert_eq!(key.as_array()[i], (i as u8) ^ 0xF0);
    }
}

#[test]
fn master_key_unmasks_with_same_secret() {
    let argon = [0x5Au8; 32];
    let ss: Vec<u8> = (0u8..32).map(|b| b.wrapping_mul(37)).collect();
    let key = compute_master_key(&argon, &ss);
    assert_eq!(compute_master_key(key.as_array(), &ss).as_array(), &argon);
}

#[test]
fn derive_key_matches_derivation_under_its_salt() {
    let (key, salt) = derive_key("correct horse").unwrap();
    assert_eq!(derive_key_with_salt("correct horse", &salt).unwrap().as_array(), key.as_array());
    assert_ne!(&key.as_array()[..], "correct horse".as_bytes());
}

#[test]
fn derive_key_with_salt_is_deterministic_and_salted() {
    let salt_a = [1u8; 16];
    let salt_b = [2u8; 16];
    let a1 = *derive_key_with_salt("pin", &salt_a).unwrap().as_array();
    let a2 = *derive_key_with_salt("pin", &salt_a).unwrap().as_array();
    let b = *derive_key_with_salt("pin", &salt_b).unwrap().as_array();
    assert_eq!(a1, a2);
    assert_ne!(a1, b);
    assert_ne!(a1, *derive_key_with_salt("pim", &salt_a).unwrap().as_array());
}

#[test]
fn derive_key_with_short_salt_fails() {
    assert_eq!(
        derive_key_with_salt("pin", &[0u8; 7]).err(),
        Some(VaultError::KeyDerivation(Argon2Failure::SaltTooShort))
    );
    assert!(derive_key_with_salt("pin", &[0u8; 8]).is_ok());
}

#[test]
fn blank_detection_uses_unicode_white_space() {
    assert!(is_blank_str(""));
    assert!(is_blank_str(" \t\n"));
    assert!(is_blank_str("\u{2003}\u{00A0}"));
    assert!(!is_blank_str(" a "));
}

#[test]
fn phantom_block_for_blank_passcode_is_noise() {
    let salt = [3u8; 16];
    let a = generate_phantom_block("", &salt).unwrap();
    let b = generate_phantom_block("   ", &salt).unwrap();
    assert_eq!(a.len(), 32);
    assert_eq!(b.len(), 32);
    assert_ne!(a, b);
    // no salt check happens for a blank passcode
    assert_eq!(generate_phantom_block(" ", &[0u8; 2]).unwrap().len(), 32);
}

#[test]
fn phantom_block_hashes_deception_passcode() {
    let salt = [4u8; 16];
    let block = generate_phantom_block("decoy", &salt).unwrap();
    assert_eq!(block, derive_key_with_salt("decoy", &salt).unwrap().as_array().to_vec());
}

#[test]
fn phantom_block_with_short_salt_fails() {
    assert_eq!(
        generate_phantom_block("decoy", &[0u8; 4]),
        Err(VaultError::PhantomDerivation(Argon2Failure::SaltTooShort))
    );
}

#[test]
fn phantom_block_salt_is_checked_only_for_a_passcode() {
    assert_eq!(generate_phantom_block("   ", &[]).unwrap().len(), 32);
    assert_eq!(
        generate_phantom_block("decoy", &[]),
        Err(VaultError::PhantomDerivation(Argon2Failure::SaltTooShort))
    );
}

#[test]
fn hybrid_kem_cypherpunk_round_trip() {
    let (sk, ct, ss, kem_id) = generate_hybrid_kem("cypherpunk").unwrap();
    assert_eq!(kem_id, 2);
    assert_eq!(sk.as_slice().len(), 3168 + 32);
    assert_eq!(ct.len(), 1568 + 32);
    assert_eq!(ss.as_slice().len(), 32);
    assert_eq!(decapsulate_hybrid_kem(kem_id, sk.as_slice(), &ct).unwrap().as_slice(), ss.as_slice());
}

#[test]
fn hybrid_kem_standard_round_trip() {
    let (sk, ct, ss, kem_id) = generate_hybrid_kem("xwing").unwrap();
    assert_eq!(kem_id, 1);
    assert_eq!(sk.as_slice().len(), 2400 + 32);
    assert_eq!(ct.len(), 1088 + 32);
    assert_eq!(decapsulate_hybrid_kem(kem_id, sk.as_slice(), &ct).unwrap().as_slice(), ss.as_slice());
}

#[test]
fn hybrid_kem_secrets_differ_between_runs() {
    let (_, _, ss1, _) = generate_hybrid_kem("standard").unwrap();
    let (_, _, ss2, _) = generate_hybrid_kem("standard").unwrap();
    assert_ne!(ss1.as_slice(), ss2.as_slice());
}

#[test]
fn hybrid_kem_other_key_gives_other_secret() {
    let (_, ct, ss, kem_id) = generate_hybrid_kem("cypherpunk").unwrap();
    let (sk2, _, _, _) = generate_hybrid_kem("cypherpunk").unwrap();
    assert_ne!(decapsulate_hybrid_kem(kem_id, sk2.as_slice(), &ct).unwrap().as_slice(), ss.as_slice());
}

#[test]
fn decapsulate_rejects_short_payloads() {
    assert_eq!(decapsulate_hybrid_kem(2, &[0u8; 31], &[0u8; 64]).err(), Some(VaultError::PayloadTooShort));
    assert_eq!(decapsulate_hybrid_kem(2, &[0u8; 64], &[0u8; 31]).err(), Some(VaultError::PayloadTooShort));
}

#[test]
fn decapsulate_rejects_wrong_key_length() {
    let (_, ct, _, _) = generate_hybrid_kem("cypherpunk").unwrap();
    assert_eq!(decapsulate_hybrid_kem(2, &[0u8; 100], &ct).err(), Some(VaultError::InvalidKeyFile));
    // a Kyber-768 key read as Kyber-1024
    let (sk768, _, _, _) = generate_hybrid_kem("standard").unwrap();
    assert_eq!(decapsulate_hybrid_kem(2, sk768.as_slice(), &ct).err(), Some(VaultError::InvalidKeyFile));
}

#[test]
fn decapsulate_rejects_wrong_ciphertext_length() {
    let (sk, ct, _, _) = generate_hybrid_kem("cypherpunk").unwrap();
    assert_eq!(decapsulate_hybrid_kem(2, sk.as_slice(), &ct[1..]).err(), Some(VaultError::CompromisedHeader));
}
