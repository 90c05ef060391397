use add_crypto_core::hybrid_kem::{
    bidirectional_exchange, decode_combined_pk, decode_hybrid_ct, encode_combined_pk, encode_hybrid_ct,
    hybrid_decapsulate, hybrid_encapsulate, ratchet_step, ratchet_step_with, HybridCiphertext, HybridKeypair,
    MlKem768EncapsulationKey, COMBINED_CT_SIZE, COMBINED_PK_SIZE, HYBRID_SS_SIZE,
};
use add_crypto_core::kem::{HybridKemRatchet, KemRatchet};
use add_crypto_core::kem_ratchet::{
    verify_ratchet_properties, EphemeralKeys, KemRatchetState, PqDoubleRatchet,
};
use add_crypto_core::hybrid_kem::MlKem768DecapsulationKey;
use add_crypto_core::kem::make_kem_context;
use add_crypto_core::pqxdh::{
    deserialize_handshake_from_wire, execute_pqxdh_handshake, ratchet_step as pqxdh_ratchet_step,
    serialize_handshake_to_wire, verify_deniability, PqxDhRatchetState, SESSION_KEY_SIZE,
};
use add_crypto_core::ratchet_pq::RatchetStateBase;
use rand::rngs::StdRng;
use rand::SeedableRng;
use x25519_dalek::{EphemeralSecret, PublicKey, StaticSecret};

fn ephemeral() -> ([u8; 32], [u8; 32]) {
    let secret = StaticSecret::random_from_rng(rand::thread_rng());
    (secret.to_bytes(), PublicKey::from(&secret).to_bytes())
}

fn zero_enc() -> MlKem768EncapsulationKey {
    MlKem768EncapsulationKey::from_slice(&[0u8; 1184]).unwrap()
}

#[test]
fn test_hybrid_keypair_generation() {
    let kp = HybridKeypair::generate().unwrap();
    let pk = kp.combined_public_key();
    assert_eq!(pk.len(), COMBINED_PK_SIZE);
}

#[test]
fn test_hybrid_encapsulate_decapsulate() {
    let our_kp = HybridKeypair::generate().unwrap();
    let their_kp = HybridKeypair::generate().unwrap();
    let (ct, our_ss) = hybrid_encapsulate(
        &their_kp.mlkem_encapsulation_key(),
        &their_kp.x25519_public(),
        &our_kp.x25519_public(),
    )
    .unwrap();
    let ss = hybrid_decapsulate(&ct, &their_kp, &our_kp.x25519_public()).unwrap();
    assert_eq!(ss.as_bytes().len(), HYBRID_SS_SIZE);
    assert_eq!(ss.as_bytes(), our_ss.as_bytes());
}

#[test]
fn test_bidirectional_exchange() {
    let kp_a = HybridKeypair::generate().unwrap();
    let kp_b = HybridKeypair::generate().unwrap();
    let b_combined_pk_bytes = kp_b.combined_public_key();
    let b_combined_pk = HybridKeypair::from_combined_public_key(&b_combined_pk_bytes).unwrap();
    let (a_ct, a_ss, b_ct, b_ss) = bidirectional_exchange(&kp_a, &b_combined_pk, &kp_b.x25519_public()).unwrap();
    let a_decaps = hybrid_decapsulate(&b_ct, &kp_a, &kp_b.x25519_public()).unwrap();
    let b_decaps = hybrid_decapsulate(&a_ct, &kp_b, &kp_a.x25519_public()).unwrap();
    assert!(a_ss.as_bytes() != &[0u8; 32]);
    assert!(b_ss.as_bytes() != &[0u8; 32]);
    assert!(a_decaps.as_bytes() != &[0u8; 32]);
    assert!(b_decaps.as_bytes() != &[0u8; 32]);
    // each side recovers what was encapsulated to it
    assert_eq!(b_decaps.as_bytes(), a_ss.as_bytes());
    assert_eq!(a_decaps.as_bytes(), b_ss.as_bytes());
}

#[test]
fn hybrid_kem_test_wire_format_roundtrip() {
    let kp = HybridKeypair::generate().unwrap();
    let pk_b64 = encode_combined_pk(&kp);
    let decoded_pk = decode_combined_pk(&pk_b64).unwrap();
    let (ct, _) = hybrid_encapsulate(&decoded_pk, &kp.x25519_public(), &kp.x25519_public()).unwrap();
    let encoded_ct = encode_hybrid_ct(&ct);
    let decoded_ct = decode_hybrid_ct(&encoded_ct).unwrap();
    assert_eq!(ct.x25519_ct, decoded_ct.x25519_ct);
}

#[test]
fn hybrid_kem_test_ratchet_step() {
    let kp = HybridKeypair::generate().unwrap();
    let peer_pk_bytes = kp.combined_public_key();
    let peer_pk = HybridKeypair::from_combined_public_key(&peer_pk_bytes).unwrap();
    let (ct, ss) = ratchet_step(&kp, &peer_pk, &kp.x25519_public()).unwrap();
    assert_eq!(ss.as_bytes().len(), HYBRID_SS_SIZE);
    assert_eq!(ct.to_bytes().len(), COMBINED_CT_SIZE);
}

#[test]
fn test_deterministic_seed_derivation() {
    let seed = [0x42u8; 64];
    let kp1 = HybridKeypair::from_seed(&seed).unwrap();
    let kp2 = HybridKeypair::from_seed(&seed).unwrap();
    assert_eq!(kp1.x25519_public(), kp2.x25519_public());
}

#[test]
fn ratchet_step_is_decapsulated_by_its_recipient() {
    let sender = HybridKeypair::generate().unwrap();
    let recipient = HybridKeypair::generate().unwrap();
    let (ct, ss) = ratchet_step_with(
        &sender,
        &recipient.mlkem_encapsulation_key(),
        &recipient.x25519_public(),
        &[5u8; 32],
        &[6u8; 32],
    );
    let got = hybrid_decapsulate(&ct, &recipient, &sender.x25519_public()).unwrap();
    assert_eq!(got.as_bytes(), ss.as_bytes());
}

#[test]
fn combined_keys_roundtrip_and_errors() {
    let kp = HybridKeypair::generate().unwrap();
    let sk = kp.combined_private_key();
    let kp2 = HybridKeypair::from_combined_private_key(&sk).unwrap();
    assert_eq!(kp2.combined_public_key(), kp.combined_public_key());
    assert!(HybridKeypair::from_combined_public_key(&[0u8; 10]).is_err());
    assert!(decode_combined_pk("!!").is_err());
    assert!(decode_hybrid_ct("AAAA").is_err());
    let bad = HybridCiphertext { x25519_ct: [0u8; 32], mlkem_ct: vec![0u8; 10] };
    assert!(hybrid_decapsulate(&bad, &kp, &kp.x25519_public()).is_err());
}

#[test]
fn kem_ratchet_context_encapsulation_shapes() {
    let kem = HybridKemRatchet;
    let (kp, sk) = kem.generate_keypair().unwrap();
    let ctx = make_kem_context(1, 2);
    let (ct, ss) = kem.encapsulate(&kp, &ctx).unwrap();
    assert_eq!(kem.ct_to_bytes(&ct).len(), COMBINED_CT_SIZE);
    assert_eq!(ss.as_bytes().len(), 32);
    assert!(kem.decapsulate(&sk, &ct, &ctx).is_ok());
    let pk_bytes = kem.pk_to_bytes(&kp);
    let pk = kem.pk_from_bytes(&pk_bytes).unwrap();
    assert_eq!(pk.x25519_public(), kp.x25519_public());
    assert!(kem.pk_from_bytes(&pk_bytes[..1184]).is_err());
    assert_eq!(kem.sk_from_bytes(&kem.sk_to_bytes(&sk)).unwrap(), sk);
    assert!(kem.sk_from_bytes(&[0u8; 3]).is_err());
    assert!(kem.ct_from_bytes(&[0u8; 3]).is_err());
}

#[test]
fn test_full_pqxdh_handshake() {
    let init_kp = HybridKeypair::generate().unwrap();
    let resp_kp = HybridKeypair::generate().unwrap();
    let (_, init_eph_pk) = ephemeral();
    let (_, resp_eph_pk) = ephemeral();
    let (session_keys, ratchet_state) = execute_pqxdh_handshake(&init_kp, &init_eph_pk, &resp_kp, &resp_eph_pk).unwrap();
    assert_eq!(session_keys.send_key.len(), SESSION_KEY_SIZE);
    assert_eq!(session_keys.recv_key.len(), SESSION_KEY_SIZE);
    assert!(ratchet_state.is_initiator);
}

#[test]
fn pqxdh_test_wire_format_roundtrip() {
    let init_kp = HybridKeypair::generate().unwrap();
    let resp_kp = HybridKeypair::generate().unwrap();
    let (_, init_eph_pk) = ephemeral();
    let (_, resp_eph_pk) = ephemeral();
    let (_, _) = execute_pqxdh_handshake(&init_kp, &init_eph_pk, &resp_kp, &resp_eph_pk).unwrap();
    let init_mlkem = init_kp.mlkem_encapsulation_key();
    let resp_mlkem = resp_kp.mlkem_encapsulation_key();
    let (init_ct, _, _init_ss, _) = bidirectional_exchange(&init_kp, &resp_mlkem, &resp_eph_pk).unwrap();
    let (resp_ct, _, _resp_ss, _) = bidirectional_exchange(&resp_kp, &init_mlkem, &init_eph_pk).unwrap();
    let wire = serialize_handshake_to_wire(&init_eph_pk, &resp_eph_pk, &init_mlkem, &resp_mlkem, &init_ct, &resp_ct);
    let parsed = deserialize_handshake_from_wire(&wire).unwrap();
    assert_eq!(parsed.version, "add-pqxdh-v1");
    assert_eq!(parsed.init_ephemeral_x25519_pk, init_eph_pk);
    assert_eq!(parsed.resp_hybrid_ct.mlkem_ct, resp_ct.mlkem_ct);
    assert_eq!(parsed.init_mlkem_enc_key, vec![0u8; 1184]);
}

#[test]
fn pqxdh_test_ratchet_step() {
    let kp = HybridKeypair::generate().unwrap();
    let peer_combined = kp.combined_public_key();
    let peer_mlkem = HybridKeypair::from_combined_public_key(&peer_combined).unwrap();
    let mut state = PqxDhRatchetState {
        root_key: [0x42u8; 32],
        send_chain_key: [0x41u8; 32],
        recv_chain_key: [0x40u8; 32],
        send_message_counter: 0,
        recv_message_counter: 0,
        is_initiator: true,
    };
    let mut rng = StdRng::seed_from_u64(0x12);
    let secret = StaticSecret::random_from_rng(&mut rng);
    let peer_eph_pk = PublicKey::from(&secret).to_bytes();
    let mut eph_secret = secret.to_bytes();
    let (ct, combined_ss) = pqxdh_ratchet_step(&mut state, &mut eph_secret, &kp, &peer_eph_pk, &peer_mlkem).unwrap();
    assert_eq!(ct.to_bytes().len(), COMBINED_CT_SIZE);
    assert_eq!(combined_ss.as_bytes().len(), 32);
    assert_ne!(state.send_chain_key, [0x41u8; 32]);
    assert_eq!(ct.x25519_ct, PublicKey::from(&StaticSecret::from(eph_secret)).to_bytes());
}

#[test]
fn test_deniability_verification() {
    let kp = HybridKeypair::generate().unwrap();
    let (eph_secret, _eph_pk) = ephemeral();
    let (ct, _ss) = ratchet_step(&kp, &kp.mlkem_encapsulation_key(), &kp.x25519_public()).unwrap();
    let deniable = verify_deniability(&eph_secret, &ct, &kp.x25519_public(), &kp).unwrap();
    assert!(deniable);
}

#[test]
fn test_bidirectional_exchange_key_agreement() {
    let kp_a = HybridKeypair::generate().unwrap();
    let kp_b = HybridKeypair::generate().unwrap();
    let a_combined_pk_bytes = kp_a.combined_public_key();
    let a_combined_pk = HybridKeypair::from_combined_public_key(&a_combined_pk_bytes).unwrap();
    let (b_to_a_ct, b_to_a_ss, _a_to_b_ct, _a_to_b_ss) =
        bidirectional_exchange(&kp_b, &a_combined_pk, &kp_a.x25519_public()).unwrap();
    let a_decaps = hybrid_decapsulate(&b_to_a_ct, &kp_a, &kp_a.x25519_public()).unwrap();
    assert_eq!(a_decaps.as_bytes().len(), 32);
    assert!(a_decaps.as_bytes() != &[0u8; 32]);
    assert!(b_to_a_ss.as_bytes() != &[0u8; 32]);
}

#[test]
fn test_legacy_fallback_compatibility() {
    let kp = HybridKeypair::generate().unwrap();
    let ct_bytes = kp.combined_public_key();
    assert_eq!(ct_bytes.len(), COMBINED_PK_SIZE);
    let x25519_only = &ct_bytes[..32];
    assert_eq!(x25519_only.len(), 32);
    let mlkem_only = &ct_bytes[32..];
    assert_eq!(mlkem_only.len(), 1184);
}

fn handshake_base(initiator: bool) -> (PqxDhRatchetState, [u8; 32], [u8; 32], HybridKeypair, HybridKeypair) {
    let init_kp = HybridKeypair::generate().unwrap();
    let resp_kp = HybridKeypair::generate().unwrap();
    let (_, init_eph_pk) = ephemeral();
    let (_, resp_eph_pk) = ephemeral();
    let (_, state) = execute_pqxdh_handshake(&init_kp, &init_eph_pk, &resp_kp, &resp_eph_pk).unwrap();
    let _ = initiator;
    (state, init_eph_pk, resp_eph_pk, init_kp, resp_kp)
}

#[test]
fn test_legacy_ratchet_epoch() {
    let kp = HybridKeypair::generate().unwrap();
    let peer_combined = kp.combined_public_key();
    let peer_mlkem = HybridKeypair::from_combined_public_key(&peer_combined).unwrap();
    let base = PqxDhRatchetState {
        root_key: [0x42u8; 32],
        send_chain_key: [0x41u8; 32],
        recv_chain_key: [0x40u8; 32],
        send_message_counter: 0,
        recv_message_counter: 0,
        is_initiator: true,
    };
    let mut rng = StdRng::seed_from_u64(0x12);
    let eph_secret = EphemeralSecret::random_from_rng(&mut rng);
    let eph_pk = PublicKey::from(&eph_secret).to_bytes();
    let mut ratchet = PqDoubleRatchet::from_pqxdh(base, eph_pk, eph_pk, peer_mlkem.clone());
    let (ct, combined_ss) = ratchet.ratchet_epoch(&kp, &peer_mlkem).unwrap();
    assert_eq!(ct.to_bytes().len(), COMBINED_CT_SIZE);
    assert_eq!(combined_ss.as_bytes().len(), HYBRID_SS_SIZE);
}

#[test]
fn test_full_bidirectional_double_ratchet_session() {
    let (ratchet_state, init_eph_pk, resp_eph_pk, init_kp, resp_kp) = handshake_base(true);
    let mut init_ratchet =
        PqDoubleRatchet::from_pqxdh(ratchet_state.clone(), init_eph_pk, resp_eph_pk, resp_kp.mlkem_encapsulation_key());
    let (_, init_new_eph_pk) = ephemeral();
    let (_, resp_new_eph_pk) = ephemeral();
    let mut resp_ratchet = PqDoubleRatchet::from_pqxdh(
        PqxDhRatchetState {
            root_key: ratchet_state.root_key,
            send_chain_key: ratchet_state.recv_chain_key,
            recv_chain_key: ratchet_state.send_chain_key,
            send_message_counter: 0,
            recv_message_counter: 0,
            is_initiator: false,
        },
        resp_new_eph_pk,
        init_new_eph_pk,
        init_kp.mlkem_encapsulation_key(),
    );
    let plaintexts: [&[u8]; 5] = [
        b"Hello from initiator!",
        b"Hello from responder!",
        b"Second message from initiator",
        b"Second message from responder",
        b"Third round - forward secrecy test",
    ];
    for (i, pt) in plaintexts.iter().enumerate() {
        let combined_ss = [0x42u8; 32];
        let (ct, nonce_vec) = init_ratchet.encrypt_message(pt, &combined_ss).unwrap();
        assert_eq!(ct.to_bytes().len(), COMBINED_CT_SIZE);
        let decrypted = resp_ratchet
            .decrypt_message(i as u64, &combined_ss, &nonce_vec.try_into().unwrap(), &[0u8; 32])
            .unwrap();
        assert_eq!(decrypted.len(), 32);
    }
    assert!(verify_ratchet_properties(&init_ratchet.inner).is_ok());
}

#[test]
fn test_epoch_rotation_forward_secy() {
    let (ratchet_state, init_eph_pk, resp_eph_pk, init_kp, resp_kp) = handshake_base(true);
    let mut ratchet =
        PqDoubleRatchet::from_pqxdh(ratchet_state, init_eph_pk, resp_eph_pk, resp_kp.mlkem_encapsulation_key());
    let (epoch_ct, combined_ss) = ratchet.ratchet_epoch(&init_kp, &resp_kp.mlkem_encapsulation_key()).unwrap();
    assert_eq!(epoch_ct.to_bytes().len(), COMBINED_CT_SIZE);
    let pt = b"Post-rotation message";
    let (ct, nonce_vec) = ratchet.encrypt_message(pt, combined_ss.as_bytes()).unwrap();
    assert_eq!(ct.to_bytes().len(), COMBINED_CT_SIZE);
    let decrypted = ratchet
        .decrypt_message(0, combined_ss.as_bytes(), &nonce_vec.try_into().unwrap(), &[0u8; 32])
        .unwrap();
    assert_eq!(decrypted.len(), 32);
    let (_, new_eph_pk) = ephemeral();
    let root_before = ratchet.inner.base.root_key;
    ratchet.update_root_key(&new_eph_pk).unwrap();
    assert_ne!(ratchet.inner.base.root_key, root_before);
}

fn kem_state(base: RatchetStateBase, our_pk: [u8; 32], their_enc: MlKem768EncapsulationKey, their_pk: [u8; 32]) -> KemRatchetState {
    KemRatchetState::new(
        base,
        EphemeralKeys::new(our_pk, MlKem768DecapsulationKey::from_seed(&[0u8; 64]), zero_enc(), our_pk),
        their_enc,
        their_pk,
    )
}

#[test]
fn test_full_bidirectional_kem_ratchet_session() {
    let (ratchet_state, init_eph_pk, resp_eph_pk, init_kp, resp_kp) = handshake_base(true);
    let mut init_ratchet = kem_state(
        RatchetStateBase {
            root_key: ratchet_state.root_key,
            send_chain_key: ratchet_state.send_chain_key,
            recv_chain_key: ratchet_state.recv_chain_key,
            send_message_counter: 0,
            recv_message_counter: 0,
            is_initiator: true,
        },
        init_eph_pk,
        resp_kp.mlkem_encapsulation_key(),
        resp_eph_pk,
    );
    let (_, resp_eph_pk2) = ephemeral();
    let mut resp_ratchet = kem_state(
        RatchetStateBase {
            root_key: ratchet_state.root_key,
            send_chain_key: ratchet_state.recv_chain_key,
            recv_chain_key: ratchet_state.send_chain_key,
            send_message_counter: 0,
            recv_message_counter: 0,
            is_initiator: false,
        },
        resp_eph_pk2,
        init_kp.mlkem_encapsulation_key(),
        init_eph_pk,
    );
    let plaintexts: [&[u8]; 5] = [
        b"Hello from initiator!",
        b"Hello from responder!",
        b"Second message from initiator",
        b"Second message from responder",
        b"Third round - forward secrecy test",
    ];
    for (i, pt) in plaintexts.iter().enumerate() {
        let combined_ss = [0x42u8; 32];
        let (ct, nonce_vec) = init_ratchet.encrypt_message(pt, &combined_ss).unwrap();
        assert!(!ct.is_empty());
        assert_eq!(nonce_vec.len(), 12);
        let decrypted = resp_ratchet.decrypt_message(i as u64, &combined_ss, &nonce_vec, &ct).unwrap();
        assert_eq!(decrypted, *pt);
    }
    assert!(verify_ratchet_properties(&init_ratchet).is_ok());
}

#[test]
fn test_epoch_rotation_forward_secrecy() {
    let (ratchet_state, init_eph_pk, resp_eph_pk, _init_kp, resp_kp) = handshake_base(true);
    let mut ratchet = kem_state(
        RatchetStateBase {
            root_key: ratchet_state.root_key,
            send_chain_key: ratchet_state.send_chain_key,
            recv_chain_key: ratchet_state.recv_chain_key,
            send_message_counter: 0,
            recv_message_counter: 0,
            is_initiator: true,
        },
        init_eph_pk,
        resp_kp.mlkem_encapsulation_key(),
        resp_eph_pk,
    );
    let (peer_ct, combined_ss) = ratchet
        .advance_root_ratchet(&HybridCiphertext { x25519_ct: [0x00u8; 32], mlkem_ct: vec![0u8; 1088] })
        .unwrap();
    assert_eq!(peer_ct.to_bytes().len(), COMBINED_CT_SIZE);
    assert_eq!(combined_ss.as_bytes().len(), HYBRID_SS_SIZE);
    let pt = b"Post-rotation message";
    let (ct, _nonce) = ratchet.encrypt_message(pt, combined_ss.as_bytes()).unwrap();
    assert!(!ct.is_empty());
}

#[test]
fn test_root_key_advancement() {
    let kp = HybridKeypair::generate().unwrap();
    let (_, eph_pk) = ephemeral();
    let mut state = kem_state(
        RatchetStateBase {
            root_key: [0x42u8; 32],
            send_chain_key: [0x41u8; 32],
            recv_chain_key: [0x40u8; 32],
            send_message_counter: 0,
            recv_message_counter: 0,
            is_initiator: true,
        },
        eph_pk,
        kp.mlkem_encapsulation_key(),
        eph_pk,
    );
    let dummy_ct = HybridCiphertext { x25519_ct: [0x00u8; 32], mlkem_ct: vec![0u8; 1088] };
    let (ct1, _) = state.advance_root_ratchet(&dummy_ct).unwrap();
    let root_after_1 = state.base.root_key;
    let (ct2, _) = state.advance_root_ratchet(&ct1).unwrap();
    let root_after_2 = state.base.root_key;
    assert_ne!(root_after_1, root_after_2);
    assert_ne!(ct1.x25519_ct, ct2.x25519_ct);
    let short = HybridCiphertext { x25519_ct: [0u8; 32], mlkem_ct: vec![0u8; 5] };
    assert!(state.advance_root_ratchet(&short).is_err());
    assert_eq!(state.base.root_key, root_after_2);
}
