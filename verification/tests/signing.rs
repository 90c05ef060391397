use add_crypto_core::keys::{
    decode_verifying_key, fingerprint_from_verifying_key, generate_keypair, sign, sign_ml_dsa87, verify,
    MlDsa87KeyPair, MlKem1024KeyPair, PqKeyPair,
};
use sha2::Digest;

#[test]
fn sign_then_verify() {
    let kp = MlDsa87KeyPair::from_seed(&[7u8; 32]).unwrap();
    let sig = sign(b"hello", &kp.signing_key()).unwrap();
    assert_eq!(sig.to_bytes().len(), 4627);
    assert!(verify(b"hello", &sig, &kp.verifying_key()).unwrap());
    assert!(!verify(b"hellp", &sig, &kp.verifying_key()).unwrap());
    let other = MlDsa87KeyPair::generate().unwrap();
    assert!(!verify(b"hello", &sig, &other.verifying_key()).unwrap());
    // deterministic signing
    let sig2 = sign_ml_dsa87(b"hello", &kp.signing_key()).unwrap();
    assert_eq!(sig.to_bytes(), sig2.to_bytes());
}

#[test]
fn seeds_and_encodings() {
    let kp = MlDsa87KeyPair::from_seed(&[9u8; 32]).unwrap();
    assert_eq!(kp.to_seed(), [9u8; 32]);
    let (seed, vk_bytes) = kp.to_bytes();
    assert_eq!(seed, [9u8; 32]);
    assert_eq!(vk_bytes.len(), 2592);
    let kp2 = MlDsa87KeyPair::from_seed(&seed).unwrap();
    assert_eq!(kp2.verifying_key().to_bytes(), vk_bytes);
    let vk = decode_verifying_key(&vk_bytes).unwrap();
    assert_eq!(vk.to_bytes(), vk_bytes);
    assert!(decode_verifying_key(&vk_bytes[..100]).is_err());
    let fp = fingerprint_from_verifying_key(&vk);
    let h = sha2::Sha256::digest(&vk_bytes);
    assert_eq!(fp, base64::Engine::encode(&base64::engine::general_purpose::STANDARD, &h[..8]));
    assert_eq!(fp.len(), 12);
}

#[test]
fn generated_pairs() {
    let (sk, vk) = generate_keypair().unwrap();
    let sig = sign(b"m", &sk).unwrap();
    assert!(verify(b"m", &sig, &vk).unwrap());
    let kem = MlKem1024KeyPair::generate().unwrap();
    let (dec, enc) = kem.to_bytes();
    assert_eq!(dec.len(), 64);
    assert_eq!(enc.len(), 1568);
    assert_eq!(kem.public_key().to_bytes(), enc);
    let both = PqKeyPair::generate().unwrap();
    assert_eq!(both.ml_dsa87.verifying_key().to_bytes().len(), 2592);
}
