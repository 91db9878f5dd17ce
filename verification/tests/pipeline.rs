use ombracrypt::crypto::derive_key_with_salt;
use ombracrypt::deception::duress_response;
use ombracrypt::error::VaultError;
use ombracrypt::format::{encode_vault_header, parse_vault_header, split_key_file};
use ombracrypt::pipeline::{
    check_deception_passcode, master_password_acceptable, passwords_match, prepare_vault,
    unlock_vault, DeceptionCheck, Unlock,
};
use ombracrypt::stream::{open_chunk, seal_chunk, CipherSuite};

#[test]
fn password_prompt_rules() {
    assert!(!master_password_acceptable(""));
    assert!(!master_password_acceptable("  \t"));
    assert!(master_password_acceptable(" secret "));
    assert!(passwords_match("abc", "abc"));
    assert!(!passwords_match("abc", "abd"));
    assert_eq!(check_deception_passcode("", "main"), DeceptionCheck::Skip);
    assert_eq!(check_deception_passcode("main", "main"), DeceptionCheck::SameAsMaster);
    assert_eq!(check_deception_passcode("decoy", "main"), DeceptionCheck::Confirm);
    assert_eq!(check_deception_passcode(" ", "main"), DeceptionCheck::Confirm);
}

#[test]
fn master_password_unlocks_its_vault() {
    let setup = prepare_vault("aes256gcm", "cypherpunk", "master pw", "decoy").unwrap();
    assert_eq!(setup.header.cipher_id, 2);
    assert_eq!(setup.header.kem_id, 2);
    assert_eq!(setup.header.nonce.len(), 12);
    assert_eq!(setup.header.kem_ciphertext.len(), 1568 + 32);
    assert_eq!(setup.key_file.as_slice().len(), 3168 + 32 + 32);

    let header_bytes = encode_vault_header(&setup.header);
    let (header, _) = parse_vault_header(&header_bytes).unwrap();
    let (sk, phantom) = split_key_file(setup.key_file.as_slice()).unwrap();
    match unlock_vault(sk.as_slice(), &phantom, &header, "master pw").unwrap() {
        Unlock::MasterKey(key) => assert_eq!(key.as_array(), setup.master_key.as_array()),
        Unlock::Duress => panic!("master password sprang the trapdoor"),
    }
}

#[test]
fn deception_passcode_springs_the_trapdoor() {
    let setup = prepare_vault("xchacha20", "standard", "master pw", "decoy").unwrap();
    let (sk, phantom) = split_key_file(setup.key_file.as_slice()).unwrap();
    assert_eq!(phantom, derive_key_with_salt("decoy", &setup.header.salt).unwrap().as_array().to_vec());
    assert!(matches!(unlock_vault(sk.as_slice(), &phantom, &setup.header, "decoy").unwrap(), Unlock::Duress));
}

#[test]
fn vault_without_deception_passcode_has_noise_block() {
    let setup = prepare_vault("xchacha20", "standard", "master pw", "").unwrap();
    assert_eq!(setup.header.cipher_id, 1);
    assert_eq!(setup.header.kem_id, 1);
    assert_eq!(setup.header.nonce.len(), 24);
    assert_eq!(setup.key_file.as_slice().len(), 2400 + 32 + 32);
    let (sk, phantom) = split_key_file(setup.key_file.as_slice()).unwrap();
    match unlock_vault(sk.as_slice(), &phantom, &setup.header, "master pw").unwrap() {
        Unlock::MasterKey(key) => assert_eq!(key.as_array(), setup.master_key.as_array()),
        Unlock::Duress => panic!(),
    }
}

#[test]
fn wrong_password_cannot_open_chunks() {
    let setup = prepare_vault("aes256gcm", "standard", "right", "").unwrap();
    let suite = CipherSuite::from_id(setup.header.cipher_id);
    let sealed = seal_chunk(suite, setup.master_key.as_array(), &setup.header.nonce, 0, true, b"data");
    let (sk, phantom) = split_key_file(setup.key_file.as_slice()).unwrap();
    let key = match unlock_vault(sk.as_slice(), &phantom, &setup.header, "wrong").unwrap() {
        Unlock::MasterKey(key) => key,
        Unlock::Duress => panic!(),
    };
    assert_ne!(key.as_array(), setup.master_key.as_array());
    assert_eq!(open_chunk(suite, key.as_array(), &setup.header.nonce, 0, true, &sealed), Err(VaultError::DecryptionFailed));
    let right = match unlock_vault(sk.as_slice(), &phantom, &setup.header, "right").unwrap() {
        Unlock::MasterKey(key) => key,
        Unlock::Duress => panic!(),
    };
    assert_eq!(open_chunk(suite, right.as_array(), &setup.header.nonce, 0, true, &sealed).unwrap(), b"data".to_vec());
}

#[test]
fn unlock_reports_key_file_of_other_profile() {
    let setup = prepare_vault("aes256gcm", "cypherpunk", "pw", "").unwrap();
    let other = prepare_vault("aes256gcm", "standard", "pw", "").unwrap();
    let (sk, phantom) = split_key_file(other.key_file.as_slice()).unwrap();
    assert_eq!(unlock_vault(sk.as_slice(), &phantom, &setup.header, "pw").err(), Some(VaultError::InvalidKeyFile));
}

#[test]
fn key_files_of_a_profile_have_one_size() {
    let with_decoy = prepare_vault("aes256gcm", "cypherpunk", "pw", "decoy").unwrap();
    let without = prepare_vault("aes256gcm", "cypherpunk", "pw", "").unwrap();
    assert_eq!(with_decoy.key_file.as_slice().len(), without.key_file.as_slice().len());
    assert_eq!(encode_vault_header(&with_decoy.header).len(), encode_vault_header(&without.header).len());
}

#[test]
fn white_space_deception_passcode_arms_no_trapdoor() {
    let setup = prepare_vault("aes256gcm", "standard", "pw", "   ").unwrap();
    let (sk, phantom) = split_key_file(setup.key_file.as_slice()).unwrap();
    assert!(matches!(unlock_vault(sk.as_slice(), &phantom, &setup.header, "   ").unwrap(), Unlock::MasterKey(_)));
}

#[test]
fn duress_answer_is_that_of_a_failed_decryption() {
    let setup = prepare_vault("xchacha20", "standard", "master pw", "decoy").unwrap();
    let suite = CipherSuite::from_id(setup.header.cipher_id);
    let sealed = seal_chunk(suite, setup.master_key.as_array(), &setup.header.nonce, 0, true, b"data");
    let failed = open_chunk(suite, &[7u8; 32], &setup.header.nonce, 0, true, &sealed).unwrap_err();
    let (sk, phantom) = split_key_file(setup.key_file.as_slice()).unwrap();
    assert!(matches!(unlock_vault(sk.as_slice(), &phantom, &setup.header, "decoy").unwrap(), Unlock::Duress));
    assert_eq!(duress_response(), failed);
    assert_eq!(duress_response(), VaultError::DecryptionFailed);
}
