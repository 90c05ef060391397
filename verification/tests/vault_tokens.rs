use add_crypto_core::delivery_tokens::{DeliveryKey, DeliveryMasterSecret, DeliveryToken, DELIVERY_TOKEN_SIZE};
use add_crypto_core::tpm_vault::{
    decrypt_with_mak, encrypt_with_mak, failed_attempt_action, wrong_attempts_threshold, AttemptAction, seal_with_passphrase, unseal_with_passphrase, MasterAppKey, VaultKind, MAK_LEN,
};

#[test]
fn mak_encrypts_seed_at_rest() {
    let seed = [0xABu8; 64];
    let mak = MasterAppKey::from_raw([1u8; MAK_LEN]);
    let wrapped = encrypt_with_mak(&mak, &seed).unwrap();
    assert_ne!(&wrapped[..], &seed[..], "seed must not be stored in plaintext");
    let recovered = decrypt_with_mak(&mak, &wrapped).unwrap();
    assert_eq!(recovered, seed);
    let wrong = MasterAppKey::from_raw([2u8; MAK_LEN]);
    assert!(decrypt_with_mak(&wrong, &wrapped).is_err());
}

#[test]
fn passphrase_roundtrip_and_wrong_pw_fails() {
    let mak = MasterAppKey::from_raw([7u8; MAK_LEN]);
    let pw = b"Ab1!Cd2#Ef3@Gh4$";
    let vault = seal_with_passphrase(&mak, pw).unwrap();
    assert!(matches!(vault.kind, VaultKind::Passphrase { .. }));
    let out = unseal_with_passphrase(&vault, pw).unwrap();
    assert_eq!(out.as_bytes(), mak.as_bytes());
    let bad = unseal_with_passphrase(&vault, b"WR0NGp4$$w0rd12X");
    assert!(bad.is_err(), "wrong password should fail to unseal");
}

#[test]
fn short_wrapping_is_refused() {
    let mak = MasterAppKey::from_raw([1u8; MAK_LEN]);
    assert!(decrypt_with_mak(&mak, &[0u8; 11]).is_err());
    let generated = MasterAppKey::generate().unwrap();
    assert_eq!(generated.as_bytes().len(), MAK_LEN);
}

#[test]
fn tpm_vault_does_not_unseal_with_passphrase() {
    let mak = MasterAppKey::from_raw([7u8; MAK_LEN]);
    let mut vault = seal_with_passphrase(&mak, b"pw").unwrap();
    vault.kind = VaultKind::Tpm { sealed_b64: String::new() };
    assert!(unseal_with_passphrase(&vault, b"pw").is_err());
}

#[test]
fn test_delivery_master_secret_generate_and_derive() {
    let master = DeliveryMasterSecret::generate();
    let token = master.derive_token("contact-alice", 42).unwrap();
    assert!(token.as_bytes().iter().any(|&b| b != 0));
    let derived = master.derive_token("contact-alice", 42).unwrap();
    assert_eq!(token.as_bytes(), derived.as_bytes());
}

#[test]
fn test_delivery_token_verification() {
    let master = DeliveryMasterSecret::generate();
    let token_a = master.derive_token("contact-bob", 100).unwrap();
    assert!(master.verify_token("contact-bob", 100, &token_a).unwrap());
    let token_b = master.derive_token("contact-bob", 101).unwrap();
    assert!(!master.verify_token("contact-bob", 100, &token_b).unwrap());
    let token_c = master.derive_token("contact-charlie", 100).unwrap();
    assert!(!master.verify_token("contact-bob", 100, &token_c).unwrap());
}

#[test]
fn test_delivery_key_from_bytes() {
    let master = DeliveryMasterSecret::generate();
    let key = master.derive_key("test-contact");
    let key_bytes = key.as_bytes();
    let recovered = DeliveryKey::from_bytes(*key_bytes);
    let token1 = key.derive_token(5).unwrap();
    let token2 = recovered.derive_token(5).unwrap();
    assert_eq!(token1.as_bytes(), token2.as_bytes());
}

#[test]
fn test_delivery_token_hex_encoding() {
    let master = DeliveryMasterSecret::generate();
    let token = master.derive_token("alice", 7).unwrap();
    let hex = token.to_hex();
    assert_eq!(hex.len(), DELIVERY_TOKEN_SIZE * 2);
    let parsed = DeliveryToken::from_hex(&hex).unwrap();
    assert_eq!(token.as_bytes(), parsed.as_bytes());
}

#[test]
fn test_delivery_token_from_invalid_hex() {
    let result = DeliveryToken::from_hex("deadbeef");
    assert!(result.is_err());
}

#[test]
fn delivery_token_vectors() {
    let master = DeliveryMasterSecret::from_bytes([3u8; 64]);
    assert_eq!(master.as_bytes(), &[3u8; 64]);
    let key = master.derive_key("c");
    assert!(key.verify(9, &key.derive_token(9).unwrap()).unwrap());
    assert!(!key.verify(9, &key.derive_token(10).unwrap()).unwrap());
    let t = DeliveryToken::from_bytes([0xABu8; 32]);
    assert_eq!(t.to_hex(), "ab".repeat(32));
    assert!(DeliveryToken::from_hex(&"AB".repeat(32)).is_ok());
    assert!(DeliveryToken::from_hex("zz").is_err());
    assert!(DeliveryToken::from_hex("abc").is_err());
}

#[test]
fn self_destruct_threshold_is_clamped() {
    assert_eq!(wrong_attempts_threshold(None), 10);
    assert_eq!(wrong_attempts_threshold(Some(1)), 3);
    assert_eq!(wrong_attempts_threshold(Some(7)), 7);
    assert_eq!(wrong_attempts_threshold(Some(500)), 20);
}

#[test]
fn failed_attempts_count_up_to_self_destruct() {
    assert_eq!(failed_attempt_action(4, false, 10), AttemptAction::Keep);
    assert_eq!(failed_attempt_action(4, true, 10), AttemptAction::Store(5));
    assert_eq!(failed_attempt_action(9, true, 10), AttemptAction::SelfDestruct);
    assert_eq!(failed_attempt_action(255, true, 20), AttemptAction::SelfDestruct);
}
