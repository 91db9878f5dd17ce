use ombracrypt::error::{HeaderField, VaultError};
use ombracrypt::format::{
    chunk_aad, encode_key_file, encode_vault_header, frame_chunk, frame_length, parse_vault_header,
    split_key_file, VaultHeader,
};

fn sample_header() -> VaultHeader {
    VaultHeader {
        cipher_id: 2,
        kem_id: 1,
        salt: [9u8; 16],
        nonce: (0u8..12).collect(),
        kem_ciphertext: (0..300u32).map(|i| (i % 251) as u8).collect(),
    }
}

#[test]
fn header_layout() {
    let h = VaultHeader {
        cipher_id: 1,
        kem_id: 2,
        salt: [0xEEu8; 16],
        nonce: vec![0xAB; 3],
        kem_ciphertext: vec![0xCD; 258],
    };
    let bytes = encode_vault_header(&h);
    assert_eq!(bytes.len(), 2 + 16 + 1 + 3 + 2 + 258);
    assert_eq!(&bytes[0..2], &[1, 2]);
    assert_eq!(&bytes[2..18], &[0xEE; 16]);
    assert_eq!(bytes[18], 3);
    assert_eq!(&bytes[19..22], &[0xAB; 3]);
    assert_eq!(&bytes[22..24], &[0x02, 0x01]);
}

#[test]
fn header_round_trip_with_trailing_data() {
    let h = sample_header();
    let mut bytes = encode_vault_header(&h);
    let header_len = bytes.len();
    bytes.extend_from_slice(&[1, 2, 3, 4, 5]);
    let (parsed, n) = parse_vault_header(&bytes).unwrap();
    assert_eq!(n, header_len);
    assert_eq!(parsed.cipher_id, h.cipher_id);
    assert_eq!(parsed.kem_id, h.kem_id);
    assert_eq!(parsed.salt, h.salt);
    assert_eq!(parsed.nonce, h.nonce);
    assert_eq!(parsed.kem_ciphertext, h.kem_ciphertext);
}

#[test]
fn header_truncation_reports_the_field() {
    let bytes = encode_vault_header(&sample_header());
    let cases = [
        (0, HeaderField::Identifiers),
        (1, HeaderField::Identifiers),
        (2, HeaderField::Salt),
        (17, HeaderField::Salt),
        (18, HeaderField::NonceLength),
        (19, HeaderField::Nonce),
        (30, HeaderField::Nonce),
        (31, HeaderField::CiphertextLength),
        (32, HeaderField::CiphertextLength),
        (33, HeaderField::Ciphertext),
        (bytes.len() - 1, HeaderField::Ciphertext),
    ];
    for (len, field) in cases {
        match parse_vault_header(&bytes[..len]) {
            Err(e) => assert_eq!(e, VaultError::TruncatedHeader(field)),
            Ok(_) => panic!("truncated header parsed"),
        }
    }
    assert!(parse_vault_header(&bytes).is_ok());
}

#[test]
fn key_file_round_trip() {
    let sk: Vec<u8> = (0..100u8).collect();
    let phantom = [0x77u8; 32];
    let file = encode_key_file(&sk, &phantom);
    assert_eq!(file.as_slice().len(), 132);
    let (sk2, phantom2) = split_key_file(file.as_slice()).unwrap();
    assert_eq!(sk2.as_slice(), &sk[..]);
    assert_eq!(phantom2, phantom.to_vec());
}

#[test]
fn key_file_too_short_is_corrupt() {
    assert_eq!(split_key_file(&[0u8; 31]).err(), Some(VaultError::CorruptKeyFile));
    let (sk, phantom) = split_key_file(&[5u8; 32]).unwrap();
    assert!(sk.as_slice().is_empty());
    assert_eq!(phantom, vec![5u8; 32]);
}

#[test]
fn chunk_aad_layout() {
    assert_eq!(chunk_aad(0, false), vec![0, 0, 0, 0, 0, 0, 0, 0, 0]);
    assert_eq!(chunk_aad(0x0201, true), vec![1, 2, 0, 0, 0, 0, 0, 0, 1]);
}

#[test]
fn frame_round_trip() {
    let chunk = vec![0x42u8; 300];
    let frame = frame_chunk(&chunk);
    assert_eq!(&frame[..4], &[0x2C, 0x01, 0, 0]);
    assert_eq!(frame_length(&frame[..4]), 300);
    assert_eq!(&frame[4..], &chunk[..]);
}
