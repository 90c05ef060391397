use add_crypto_core::hardware_keys::{HardwareKeyManager, IdentityRootKey, RootSecret, RootSecretSource};
use add_crypto_core::kyber::MlKem1024Keypair;
use add_crypto_core::secure_mem::{secure_zero_memory, GuardedKeyMaterial, SecureKeyMaterial};

#[test]
fn test_secure_zero_memory() {
    let mut buffer = [0x42u8; 32];
    assert_eq!(buffer, vec![0x42u8; 32].as_slice());
    secure_zero_memory(&mut buffer);
    assert_eq!(buffer, vec![0u8; 32].as_slice());
}

#[test]
fn test_secure_key_material() {
    let key = vec![0xDEu8; 32];
    let skm = SecureKeyMaterial::new(key.clone(), false);
    assert_eq!(skm.bytes(), &key[..]);
}

#[test]
fn test_secure_key_material_purge() {
    let key = vec![0xDEu8; 32];
    let mut skm = SecureKeyMaterial::new(key.clone(), false);
    skm.purge();
    let all_zeros = skm.bytes().iter().all(|&b| b == 0);
    assert!(skm.is_empty() || all_zeros);
}

#[test]
fn test_guarded_key_material() {
    let mut key = vec![0xADu8; 64];
    let gkm = GuardedKeyMaterial::new(&mut key).unwrap();
    assert!(key.iter().all(|&b| b == 0));
    assert_eq!(gkm.len(), 64);
    assert!(!gkm.is_empty());
    let expected = vec![0xADu8; 64];
    assert_eq!(gkm.bytes(), expected.as_slice());
}

#[test]
fn key_material_mut_writes_through() {
    let mut skm = SecureKeyMaterial::new(vec![1u8, 2, 3], true);
    skm.key_material_mut()[1] = 9;
    assert_eq!(skm.bytes(), &[1u8, 9, 3][..]);
    assert_eq!(skm.len(), 3);
    let empty = SecureKeyMaterial::new(Vec::new(), true);
    assert!(empty.is_empty());
}

#[test]
fn test_root_secret_from_passphrase() {
    let passphrase = b"test-passphrase-123";
    let root = RootSecret::from_passphrase(passphrase).unwrap();
    assert_eq!(root.source(), RootSecretSource::Argon2id);
    assert!(!root.as_bytes().is_empty());
}

#[test]
fn test_identity_root_derivation() {
    let passphrase = b"test-passphrase-123";
    let root = RootSecret::from_passphrase(passphrase).unwrap();
    let identity = IdentityRootKey::derive(&root).unwrap();
    assert!(!identity.key.bytes().is_empty());
}

#[test]
fn test_session_keys_derivation() {
    let passphrase = b"test-passphrase-123";
    let root = RootSecret::from_passphrase(passphrase).unwrap();
    let identity = IdentityRootKey::derive(&root).unwrap();
    let session = identity.derive_session_keys().unwrap();
    assert!(!session.ratchet_root.bytes().is_empty());
    assert!(!session.cbnp_cover.bytes().is_empty());
    assert!(!session.sealed_sender.bytes().is_empty());
    assert!(!session.delivery_token.bytes().is_empty());
    assert!(!session.auth_hmac.bytes().is_empty());
    assert_eq!(session.ratchet_root.len(), 32);
    assert_eq!(session.cbnp_cover.len(), 32);
    assert_eq!(session.sealed_sender.len(), 32);
    assert_eq!(session.delivery_token.len(), 32);
    assert_eq!(session.auth_hmac.len(), 32);
}

#[test]
fn test_hardware_key_manager() {
    let passphrase = b"test-passphrase-123";
    let manager = HardwareKeyManager::new_from_passphrase(passphrase).unwrap();
    assert_eq!(manager.root_source(), RootSecretSource::Argon2id);
    let session = manager.session_keys().unwrap();
    assert_eq!(session.ratchet_root.len(), 32);
}

#[test]
fn test_mlkem_keypair_generation() {
    let passphrase = b"test-passphrase-123";
    let manager = HardwareKeyManager::new_from_passphrase(passphrase).unwrap();
    let keypair = manager.generate_mlkem_keypair().unwrap();
    let (ct, ss1) = MlKem1024Keypair::encapsulate(&keypair.enc).unwrap();
    let ss2 = keypair.decapsulate(&ct).unwrap();
    let ss1_bytes: &[u8] = ss1.as_ref();
    let ss2_bytes: &[u8] = ss2.as_ref();
    assert_eq!(ss1_bytes, ss2_bytes);
}

#[test]
fn test_deterministic_keys_same_passphrase() {
    let passphrase = b"same-passphrase";
    let manager1 = HardwareKeyManager::new_from_passphrase(passphrase).unwrap();
    let manager2 = HardwareKeyManager::new_from_passphrase(passphrase).unwrap();
    let kp1 = manager1.generate_mlkem_keypair().unwrap();
    let kp2 = manager2.generate_mlkem_keypair().unwrap();
    let kp1_bytes = kp1.enc.to_bytes();
    let kp2_bytes = kp2.enc.to_bytes();
    assert_ne!(kp1_bytes, kp2_bytes);
}

#[test]
fn hsm_is_unavailable() {
    assert!(RootSecret::from_hsm().is_err());
    assert!(HardwareKeyManager::new_from_hsm().is_err());
}

#[test]
fn purpose_keys_match_session_keys() {
    let manager = HardwareKeyManager::new_from_passphrase(b"pw").unwrap();
    let s = manager.session_keys().unwrap();
    assert_eq!(manager.auth_hmac_key().unwrap().bytes(), s.auth_hmac.bytes());
    assert_eq!(manager.delivery_token_key().unwrap().bytes(), s.delivery_token.bytes());
    assert_eq!(manager.sealed_sender_key().unwrap().bytes(), s.sealed_sender.bytes());
    assert_eq!(manager.cbnp_cover_key().unwrap().bytes(), s.cbnp_cover.bytes());
    assert_ne!(s.auth_hmac.bytes(), s.cbnp_cover.bytes());
}

#[test]
fn verify_passphrase_checks_salt() {
    let root = RootSecret::from_passphrase_and_salt(b"pw", "c2FsdHNhbHRzYWx0").unwrap();
    assert!(root.verify_passphrase(b"pw", "c2FsdHNhbHRzYWx0"));
    assert!(!root.verify_passphrase(b"other", "c2FsdHNhbHRzYWx0"));
    assert!(!root.verify_passphrase(b"pw", "b3RoZXJzYWx0c2FsdA"));
    assert!(RootSecret::from_passphrase_and_salt(b"pw", "a").is_err());
    // salts are 4..=64 characters of [A-Za-z0-9/+.-]
    assert!(RootSecret::from_passphrase_and_salt(b"pw", "ab;cdefgh").is_err());
    assert!(RootSecret::from_passphrase_and_salt(b"pw", &"A".repeat(65)).is_err());
    assert!(RootSecret::from_passphrase_and_salt(b"pw", "a+b/c.d-e9Z8").is_ok());
    let random = RootSecret::from_passphrase(b"pw").unwrap();
    assert!(!random.verify_passphrase(b"pw", "c2FsdHNhbHRzYWx0"));
    assert!(!root.verify_passphrase(b"pw", "a"));
    assert!(!root.verify_passphrase(b"pw", "abc!defghijk"));
}
