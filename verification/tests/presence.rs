use sha2::Digest;
use add_crypto_core::kyber::{encode_enc_key, MlKem1024Keypair};
use add_crypto_core::presence::{
    open_presence_value, open_sealed, pair_decapsulate, pair_encapsulate_to, presence_blob_key, presence_sign_data,
    presence_value, seal, seal_with_nonce,
};

#[test]
fn presence_pair_kem_roundtrip() {
    let bob_fp = "DCD689A757DD640EB3902BA9AB9751043C4A3AE4";
    let alice_fp = "AAAA1111BBBB2222CCCC3333DDDD4444EEEE5555";
    let addr = "ws://203.0.113.7:8765";
    let key = presence_blob_key(alice_fp, bob_fp);
    assert!(key.starts_with("presence:"));
    assert_eq!(key.len(), "presence:".len() + 64);

    let bob_kp = MlKem1024Keypair::generate().unwrap();
    let bob_pub_b64 = encode_enc_key(&bob_kp.enc);
    let (ct_hex, ss) = pair_encapsulate_to(&bob_pub_b64).unwrap();
    assert_eq!(ct_hex.len(), 2 * 1568);
    let sealed = seal(&ss, addr.as_bytes()).unwrap();
    let value = presence_value(&ct_hex, &sealed);

    assert_eq!(pair_decapsulate(&bob_kp, &ct_hex).unwrap(), ss);
    assert_eq!(open_presence_value(&bob_kp, &value), Some(addr.to_string()));

    let eve_kp = MlKem1024Keypair::generate().unwrap();
    assert_eq!(open_presence_value(&eve_kp, &value), None, "outsider must NOT recover the address");
}

#[test]
fn presence_key_is_directional() {
    let a = presence_blob_key("A", "B");
    let b = presence_blob_key("B", "A");
    assert_ne!(a, b);

    let expected = format!("presence:{}", hex::encode(sha2::Sha256::digest(b"A||B")));
    assert_eq!(a, expected);
}

#[test]
fn sealing_with_fixed_nonce_and_opening() {
    let key = [7u8; 32];
    let s = seal_with_nonce(&key, b"addr", &[1u8; 12]).unwrap();
    let raw = base64::Engine::decode(&base64::engine::general_purpose::STANDARD, &s).unwrap();
    assert_eq!(&raw[..12], &[1u8; 12]);
    assert_eq!(raw.len(), 12 + 4 + 16);
    assert_eq!(open_sealed(&key, &s).unwrap(), b"addr".to_vec());
    assert!(open_sealed(&[8u8; 32], &s).is_err());
    assert!(open_sealed(&key, "AAAA").is_err());
    assert!(open_sealed(&key, "not base64!").is_err());
}

#[test]
fn malformed_presence_values_are_refused() {
    let kp = MlKem1024Keypair::generate().unwrap();
    assert_eq!(open_presence_value(&kp, "no-dot-here"), None);
    assert_eq!(open_presence_value(&kp, "@@@.AAAA"), None);
    assert!(pair_decapsulate(&kp, "abcd").is_err());
    assert!(pair_decapsulate(&kp, "zz").is_err());
    assert!(pair_encapsulate_to("AAAA").is_err());
    assert_eq!(presence_sign_data("k", "v"), "k|v");
}
