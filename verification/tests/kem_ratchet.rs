use add_crypto_core::kem_ratchet::{verify_ratchet_properties, EphemeralKeys, KemRatchetState, PqDoubleRatchet};
use add_crypto_core::pqxdh::PqxDhRatchetState;
use add_crypto_core::ratchet_pq::{RatchetState, RatchetStateBase};
use add_crypto_core::error::PqError;
use add_crypto_core::hybrid_kem::{MlKem768DecapsulationKey, MlKem768EncapsulationKey};
use rand::rngs::StdRng;
use rand::SeedableRng;
use x25519_dalek::{EphemeralSecret, PublicKey};

fn zero_base() -> RatchetStateBase {
    RatchetStateBase {
        root_key: [0u8; 32],
        send_chain_key: [0u8; 32],
        recv_chain_key: [0u8; 32],
        send_message_counter: 0,
        recv_message_counter: 0,
        is_initiator: true,
    }
}

fn eph_pk(seed: u64) -> [u8; 32] {
    let mut rng = StdRng::seed_from_u64(seed);
    let secret = EphemeralSecret::random_from_rng(&mut rng);
    PublicKey::from(&secret).to_bytes()
}

fn zero_enc() -> MlKem768EncapsulationKey {
    MlKem768EncapsulationKey::from_slice(&[0u8; 1184]).unwrap()
}

fn keys_for(pk: [u8; 32]) -> EphemeralKeys {
    EphemeralKeys::new(pk, MlKem768DecapsulationKey::from_seed(&[0u8; 64]), zero_enc(), pk)
}

fn state_with(base: RatchetStateBase, our_pk: [u8; 32], their_pk: [u8; 32]) -> KemRatchetState {
    KemRatchetState::new(base, keys_for(our_pk), zero_enc(), their_pk)
}

#[test]
fn test_message_key_derivation() {
    let chain_key = [0x41u8; 32];
    let combined_ss = [0x42u8; 32];
    let (msg_key, new_chain_key) = KemRatchetState::derive_message_key(&chain_key, &combined_ss).unwrap();
    assert_ne!(msg_key, new_chain_key);
}

#[test]
fn test_skipped_key_storage() {
    let pk = eph_pk(0x12);
    let mut state = state_with(zero_base(), pk, pk);
    state.store_skipped_key(5, [0xABu8; 32]);
    assert_eq!(state.get_message_key(5), Some([0xABu8; 32]));
    assert_eq!(state.get_message_key(3), None);
}

#[test]
fn test_verify_ratchet_properties() {
    let base = RatchetStateBase {
        root_key: [0u8; 32],
        send_chain_key: [0xABu8; 32],
        recv_chain_key: [0xCDu8; 32],
        send_message_counter: 10,
        recv_message_counter: 5,
        is_initiator: true,
    };
    let pk = eph_pk(0x12);
    let state = state_with(base, pk, pk);
    assert!(verify_ratchet_properties(&state).is_ok());
}

#[test]
fn test_max_skip_ahead_rejection() {
    let pk = eph_pk(0x12);
    let mut state = state_with(zero_base(), pk, pk);
    let combined_ss = [0x66u8; 32];
    let nonce: [u8; 12] = [0u8; 12];
    let result = state.decrypt_message(2000, &combined_ss, &nonce, &[0u8; 32]);
    assert!(result.is_err());
}

#[test]
fn test_out_of_order_message_handling() {
    let mut state = state_with(zero_base(), eph_pk(0xDEAD), eph_pk(0xBEEF));
    state.store_skipped_key(0, [0xAAu8; 32]);
    state.store_skipped_key(2, [0xBBu8; 32]);
    state.store_skipped_key(1, [0xCCu8; 32]);
    assert_eq!(state.get_message_key(0), Some([0xAAu8; 32]));
    assert_eq!(state.get_message_key(1), Some([0xCCu8; 32]));
    assert_eq!(state.get_message_key(2), Some([0xBBu8; 32]));
}

#[test]
fn test_domain_separation_across_phases() {
    let init_ss = [0x11u8; 32];
    let resp_ss = [0x22u8; 32];
    let chain_key = [0x33u8; 32];
    let (msg_key_1, new_chain_1) = KemRatchetState::derive_message_key(&chain_key, &init_ss).unwrap();
    let (msg_key_2, _new_chain_2) = KemRatchetState::derive_message_key(&chain_key, &resp_ss).unwrap();
    assert_ne!(msg_key_1, msg_key_2);
    assert_ne!(chain_key, new_chain_1);
}

#[test]
fn test_legacy_pq_double_ratchet_wrap() {
    let base = PqxDhRatchetState {
        root_key: [0x42u8; 32],
        send_chain_key: [0x41u8; 32],
        recv_chain_key: [0x40u8; 32],
        send_message_counter: 0,
        recv_message_counter: 0,
        is_initiator: true,
    };
    let mut ratchet = PqDoubleRatchet::from_pqxdh(base, eph_pk(0x12), eph_pk(0x34), zero_enc());
    ratchet.store_skipped_key(5, [0xABu8; 32]);
    assert_eq!(ratchet.get_skipped_key(5), Some([0xABu8; 32]));
}

#[test]
fn kem_messages_roundtrip_in_order_and_out_of_order() {
    let chain = [0x5Au8; 32];
    let mut sender = state_with(
        RatchetStateBase { send_chain_key: chain, root_key: [7u8; 32], ..zero_base() },
        eph_pk(1),
        eph_pk(2),
    );
    let mut receiver = state_with(
        RatchetStateBase { recv_chain_key: chain, root_key: [7u8; 32], is_initiator: false, ..zero_base() },
        eph_pk(2),
        eph_pk(1),
    );
    let ss = [0x42u8; 32];
    let texts: [&[u8]; 3] = [b"first", b"second", b"third"];
    let mut sent = Vec::new();
    for pt in texts.iter() {
        let (ct, nonce) = sender.encrypt_message(pt, &ss).unwrap();
        assert_eq!(ct.len(), pt.len() + 16);
        sent.push((ct, nonce));
    }
    assert_eq!(sender.send_seq, 3);
    // third first, then the first two from the remembered keys
    let third = receiver.decrypt_message(2, &ss, &sent[2].1, &sent[2].0).unwrap();
    assert_eq!(third, b"third".to_vec());
    assert_eq!(receiver.recv_seq, 3);
    let first = receiver.decrypt_message(0, &ss, &sent[0].1, &sent[0].0).unwrap();
    assert_eq!(first, b"first".to_vec());
    let second = receiver.decrypt_message(1, &ss, &sent[1].1, &sent[1].0).unwrap();
    assert_eq!(second, b"second".to_vec());
    assert_eq!(receiver.base.recv_chain_key, sender.base.send_chain_key);
    // a tampered ciphertext is refused
    let mut bad = sent[0].0.clone();
    bad[0] ^= 1;
    assert!(matches!(receiver.decrypt_message(0, &ss, &sent[0].1, &bad), Err(PqError::DecapsulationFailed(_))));
}

#[test]
fn kem_gap_refusal_message_and_overfull_table() {
    let pk = eph_pk(3);
    let mut state = state_with(zero_base(), pk, pk);
    match state.decrypt_message(2000, &[1u8; 32], &[0u8; 12], &[]) {
        Err(PqError::DerivationFailed(m)) => assert_eq!(m, "seq gap too large: 2000 > 1024"),
        other => panic!("unexpected {:?}", other.is_ok()),
    }
    assert_eq!(state.recv_seq, 0);
    // a gap of exactly the bound is accepted
    assert!(state.decrypt_message(1024, &[1u8; 32], &[0u8; 12], &[0u8; 16]).is_err());
    assert_eq!(state.recv_seq, 1025);
    assert_eq!(state.skipped_keys.len(), 1024);
    // the oldest entry (message 0) was evicted and the table is sorted
    assert_eq!(state.get_message_key(0), None);
    assert!(state.get_message_key(1).is_some());
    assert!(state.skipped_keys.windows(2).all(|w| w[0].0 <= w[1].0));
    state.skipped_keys.push((5000, [0u8; 32]));
    assert_eq!(
        verify_ratchet_properties(&state),
        Err("skipped_keys (1025) exceeds maximum (1024)".to_string())
    );
    state.prune_skipped_keys();
    assert_eq!(state.skipped_keys.len(), 1024);
    assert_eq!(state.get_message_key(1), None);
    assert!(verify_ratchet_properties(&state).is_ok());
}

#[test]
fn kem_properties_report_each_problem() {
    let pk = eph_pk(4);
    let mut state = state_with(zero_base(), pk, pk);
    state.send_seq = 1;
    assert_eq!(
        verify_ratchet_properties(&state),
        Err("send chain key not advanced after messages".to_string())
    );
    state.base.send_chain_key = [1u8; 32];
    state.recv_seq = 1_000_001;
    assert_eq!(verify_ratchet_properties(&state), Err("message counter overflow".to_string()));
    assert_eq!(state.state, RatchetState::AwaitingKemResponse);
}

#[test]
fn legacy_decrypt_returns_message_key() {
    let base = PqxDhRatchetState {
        root_key: [0x42u8; 32],
        send_chain_key: [0x41u8; 32],
        recv_chain_key: [0x41u8; 32],
        send_message_counter: 0,
        recv_message_counter: 0,
        is_initiator: true,
    };
    let mut ratchet = PqDoubleRatchet::from_pqxdh(base, eph_pk(5), eph_pk(6), zero_enc());
    let ss = [9u8; 32];
    let key = ratchet.decrypt_message(0, &ss, &[0u8; 12], &[]).unwrap();
    let (expected, _) = PqDoubleRatchet::derive_message_key(&[0x41u8; 32], &ss).unwrap();
    assert_eq!(key, expected);
    assert_eq!(ratchet.inner.recv_seq, 1);
}

#[test]
fn nonce_is_masked_with_root_byte() {
    let mut state = state_with(RatchetStateBase { root_key: [7u8; 32], ..zero_base() }, eph_pk(7), eph_pk(8));
    let (ct, nonce) = state.encrypt_with_random(b"hi", &[3u8; 32], [0u8; 12]).unwrap();
    assert_eq!(nonce, [7, 7, 0, 0, 0, 0, 0, 0, 0, 0, 0, 0]);
    assert_eq!(ct.len(), 2 + 16);
    assert_eq!(state.send_seq, 1);
    let (mk, ck) = KemRatchetState::derive_message_key(&[0u8; 32], &[3u8; 32]).unwrap();
    assert_eq!(state.get_message_key(0), Some(mk));
    assert_eq!(state.base.send_chain_key, ck);
}
