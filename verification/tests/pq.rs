use add_crypto_core::error::PqError;
use add_crypto_core::hybrid_kem::{combine_shared_secrets, HybridCiphertext, HybridSharedSecret, COMBINED_CT_SIZE};
use add_crypto_core::kem::{deserialize_keypair, make_kem_context, serialize_keypair};
use add_crypto_core::pqxdh::{derive_session_keys, deserialize_handshake_from_wire, PqxDhSessionKeys, NONCE_SIZE};
use add_crypto_core::ratchet_pq::{KemRatchetMessage, RatchetState};

#[test]
fn test_invalid_ciphertext_length() {
    assert!(HybridCiphertext::from_bytes(&[0u8; 100]).is_err());
    assert!(HybridCiphertext::from_bytes(&[0u8; 2000]).is_err());
}

#[test]
fn test_shared_secret_zeroization() {
    let ss = HybridSharedSecret::from_bytes(&[0xABu8; 32]).unwrap();
    let before = ss.as_bytes().to_vec();
    drop(ss);
    let ss2 = HybridSharedSecret::from_bytes(&before).unwrap();
    assert_eq!(ss2.as_bytes(), &[0xABu8; 32]);
}

#[test]
fn test_memory_hygiene_on_drop() {
    let ss = HybridSharedSecret::from_bytes(&[0xABu8; 32]).unwrap();
    let before = ss.as_bytes().to_vec();
    drop(ss);
    let ss2 = HybridSharedSecret::from_bytes(&before).unwrap();
    assert_eq!(ss2.as_bytes(), &[0xABu8; 32]);
}

#[test]
fn test_context_generation() {
    let ctx = make_kem_context(5, 100);
    assert!(ctx.starts_with(b"add-kem-context-v1"));
    assert_eq!(ctx.len(), b"add-kem-context-v1".len() + 16);
    let ctx2 = make_kem_context(5, 101);
    assert_ne!(ctx, ctx2);
}

#[test]
fn test_session_keys_are_independent() {
    let keys = PqxDhSessionKeys {
        send_key: [0xAAu8; 32],
        recv_key: [0xBBu8; 32],
        send_iv: [0xCCu8; 12],
        recv_iv: [0xDDu8; 12],
    };
    assert_ne!(keys.send_key, keys.recv_key);
}

#[test]
fn test_bidirectional_key_agreement() {
    let init_ss_bytes = [0xABu8; 32];
    let resp_ss_bytes = [0xCDu8; 32];
    let nonce = [0x5Au8; NONCE_SIZE];
    let init_ss = HybridSharedSecret::from_bytes(&init_ss_bytes).unwrap();
    let resp_ss = HybridSharedSecret::from_bytes(&resp_ss_bytes).unwrap();
    let init_keys = derive_session_keys(&init_ss, &resp_ss, &nonce, true).unwrap();
    let resp_ss2 = HybridSharedSecret::from_bytes(&resp_ss_bytes).unwrap();
    let init_ss2 = HybridSharedSecret::from_bytes(&init_ss_bytes).unwrap();
    let resp_keys = derive_session_keys(&resp_ss2, &init_ss2, &nonce, false).unwrap();
    assert_eq!(init_keys.send_key, resp_keys.recv_key);
    assert_eq!(init_keys.recv_key, resp_keys.send_key);
}

#[test]
fn test_ratchet_state_display() {
    assert_eq!(RatchetState::AwaitingKemResponse.to_string(), "AWAITING_KEM_RESPONSE");
    assert_eq!(RatchetState::AwaitingKemRequest.to_string(), "AWAITING_KEM_REQUEST");
}

#[test]
fn ratchet_pq_test_wire_format_roundtrip() {
    let msg = KemRatchetMessage {
        version: "add-kem-ratchet-v1".to_string(),
        x25519_pk: [0x42u8; 32],
        mlkem_enc_key: vec![0x41u8; 1184],
        hybrid_ct: Some(HybridCiphertext { x25519_ct: [0x43u8; 32], mlkem_ct: vec![0x44u8; 1088] }),
        seq: 42,
        epoch: 1,
    };
    let wire = msg.to_wire();
    let parsed = KemRatchetMessage::from_wire(&wire).unwrap();
    assert_eq!(parsed.version, msg.version);
    assert_eq!(parsed.x25519_pk, msg.x25519_pk);
    assert_eq!(parsed.seq, msg.seq);
}

#[test]
fn test_wire_format_malformed() {
    assert!(KemRatchetMessage::from_wire(&[]).is_err());
    let short = vec![10u8];
    assert!(KemRatchetMessage::from_wire(&short).is_err());
}

#[test]
fn kem_message_without_ciphertext_roundtrips_all_fields() {
    let msg = KemRatchetMessage {
        version: "v".to_string(),
        x25519_pk: [7u8; 32],
        mlkem_enc_key: vec![1u8; 1184],
        hybrid_ct: None,
        seq: 0x0102030405060708,
        epoch: u64::MAX,
    };
    let wire = msg.to_wire();
    assert_eq!(wire.len(), 1 + 1 + 32 + 1184 + 16);
    let parsed = KemRatchetMessage::from_wire(&wire).unwrap();
    assert_eq!(parsed.version, "v");
    assert_eq!(parsed.mlkem_enc_key, msg.mlkem_enc_key);
    assert!(parsed.hybrid_ct.is_none());
    assert_eq!(parsed.seq, 0x0102030405060708);
    assert_eq!(parsed.epoch, u64::MAX);
    let mut no_epoch = wire.clone();
    no_epoch.truncate(wire.len() - 8);
    assert_eq!(KemRatchetMessage::from_wire(&no_epoch).unwrap().epoch, 0);
}

#[test]
fn kem_message_errors() {
    assert!(matches!(KemRatchetMessage::from_wire(&[]), Err(PqError::InvalidKeyLength { expected: 1, got: 0 })));
    assert!(matches!(KemRatchetMessage::from_wire(&[5u8, b'a']), Err(PqError::InvalidKeyLength { expected: 5, got: 1 })));
    assert!(matches!(KemRatchetMessage::from_wire(&[1u8, 0xFF]), Err(PqError::DecapsulationFailed(_))));
    assert!(matches!(KemRatchetMessage::from_wire(&[0u8; 20]), Err(PqError::InvalidKeyLength { expected: 32, got: 19 })));
}

#[test]
fn hybrid_ct_roundtrip() {
    let mut bytes = vec![3u8; COMBINED_CT_SIZE];
    bytes[0] = 9;
    bytes[40] = 11;
    let c = HybridCiphertext::from_bytes(&bytes).unwrap();
    assert_eq!(c.x25519_ct[0], 9);
    assert_eq!(c.mlkem_ct[8], 11);
    assert_eq!(c.to_bytes(), bytes);
    assert!(matches!(HybridCiphertext::from_bytes(&[0u8; 100]), Err(PqError::InvalidKeyLength { expected: 1120, got: 100 })));
}

#[test]
fn combiner_binds_inputs() {
    let a = combine_shared_secrets(&[1u8; 32], &[2u8; 32], &[3u8; 32], &[4u8; 32]);
    let b = combine_shared_secrets(&[1u8; 32], &[2u8; 32], &[3u8; 32], &[4u8; 32]);
    let c = combine_shared_secrets(&[1u8; 32], &[2u8; 32], &[3u8; 32], &[5u8; 32]);
    assert_eq!(a.as_bytes(), b.as_bytes());
    assert_ne!(a.as_bytes(), c.as_bytes());
    assert_eq!(a.to_hex().len(), 64);
}

#[test]
fn keypair_framing_roundtrip() {
    let pk = vec![5u8; 1216];
    let sk = vec![6u8; 64];
    let wire = serialize_keypair(&pk, &sk);
    assert_eq!(wire.len(), 2 + 1216 + 2 + 64);
    let (p, s) = deserialize_keypair(&wire).unwrap();
    assert_eq!(p, pk);
    assert_eq!(s, sk);
    assert!(deserialize_keypair(&[0u8; 3]).is_err());
    assert!(deserialize_keypair(&serialize_keypair(&pk, &[1u8; 10])).is_err());
}

#[test]
fn handshake_parses_fields() {
    let mut wire = vec![3u8, b'a', b'b', b'c'];
    wire.extend_from_slice(&[1u8; 32]);
    wire.extend_from_slice(&[2u8; 32]);
    wire.extend_from_slice(&[3u8; 1184]);
    wire.extend_from_slice(&[4u8; 1184]);
    wire.extend_from_slice(&[5u8; 1120]);
    wire.extend_from_slice(&[6u8; 1120]);
    let h = deserialize_handshake_from_wire(&wire).unwrap();
    assert_eq!(h.version, "abc");
    assert_eq!(h.init_ephemeral_x25519_pk, [1u8; 32]);
    assert_eq!(h.resp_ephemeral_x25519_pk, [2u8; 32]);
    assert_eq!(h.resp_mlkem_enc_key, vec![4u8; 1184]);
    assert_eq!(h.init_hybrid_ct.x25519_ct, [5u8; 32]);
    assert_eq!(h.resp_hybrid_ct.mlkem_ct, vec![6u8; 1088]);
    assert!(deserialize_handshake_from_wire(&[]).is_err());
    assert!(deserialize_handshake_from_wire(&[3u8, b'a', b'b', b'c', 0, 0]).is_err());
}
