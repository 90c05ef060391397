use add_crypto_core::kyber::{decode_enc_key, encode_enc_key, MlKem1024Keypair, MlKemVariant, VariantKeypair};
use add_crypto_core::ratchet::DoubleRatchetSession;
use base64::Engine;

fn with_chains(s: &DoubleRatchetSession, send: [u8; 32], recv: [u8; 32]) -> DoubleRatchetSession {
    let mut st = s.state().clone();
    st.send_chain_key = send.to_vec();
    st.recv_chain_key = recv.to_vec();
    DoubleRatchetSession::from_state(st)
}

#[test]
fn test_bidirectional_ratchet_roundtrip() {
    let kp_bytes = [0x42u8; 64];
    let kp = MlKem1024Keypair::from_seed(&kp_bytes).unwrap();
    let enc_key = kp.enc.clone();
    let ct_base64 = base64::engine::general_purpose::STANDARD;
    let shared_send_ck = [0xABu8; 32];
    let shared_recv_ck = [0xCDu8; 32];
    let shared_secret = [0xEFu8; 32];
    let sess_a = DoubleRatchetSession::new("fp-a", "NN-AAAA-BBBB", "our-fp-a", true, &shared_secret).unwrap();
    let sess_b = DoubleRatchetSession::new("fp-b", "NN-CCCC-DDDD", "our-fp-b", false, &shared_secret).unwrap();
    let mut sess_a = with_chains(&sess_a, shared_send_ck, shared_recv_ck);
    let mut sess_b = with_chains(&sess_b, shared_recv_ck, shared_send_ck);

    let pt1 = "hello from A";
    let ct1_raw = sess_a.encrypt_first(pt1, &[], &[]).unwrap();
    let ct1_b64 = ct_base64.encode(&ct1_raw);
    let dec1 = sess_b.decrypt_message(&ct1_b64, &kp, 0).unwrap();
    assert_eq!(dec1, pt1, "first message decrypt failed");

    let pt2 = "reply from B";
    let ct2_raw = sess_b.encrypt_message(pt2, &enc_key).unwrap();
    let ct2_b64 = ct_base64.encode(&ct2_raw);
    let dec2 = sess_a.decrypt_message(&ct2_b64, &kp, 1).unwrap();
    assert_eq!(dec2, pt2, "reply decrypt failed");

    let pt3 = "second from A";
    let ct3_raw = sess_a.encrypt_message(pt3, &enc_key).unwrap();
    let ct3_b64 = ct_base64.encode(&ct3_raw);
    let dec3 = sess_b.decrypt_message(&ct3_b64, &kp, 2).unwrap();
    assert_eq!(dec3, pt3, "third message decrypt failed");

    let pt4 = "second reply from B";
    let ct4_raw = sess_b.encrypt_message(pt4, &enc_key).unwrap();
    let ct4_b64 = ct_base64.encode(&ct4_raw);
    let dec4 = sess_a.decrypt_message(&ct4_b64, &kp, 3).unwrap();
    assert_eq!(dec4, pt4, "fourth message decrypt failed");
}

#[test]
fn test_ratchet_skipped_keys_out_of_order_and_replay() {
    let kp_bytes = [0x42u8; 64];
    let kp = MlKem1024Keypair::from_seed(&kp_bytes).unwrap();
    let ct_base64 = base64::engine::general_purpose::STANDARD;
    let shared_secret = [0x11u8; 32];
    let sess_a = DoubleRatchetSession::new("fp-a", "NN-AAAA-BBBB", "our-fp-a", true, &shared_secret).unwrap();
    let sess_b = DoubleRatchetSession::new("fp-b", "NN-CCCC-DDDD", "our-fp-b", false, &shared_secret).unwrap();
    let mut sess_a = with_chains(&sess_a, [0xABu8; 32], [0xCDu8; 32]);
    let mut sess_b = with_chains(&sess_b, [0xCDu8; 32], [0xABu8; 32]);
    let mut cts = Vec::new();
    for i in 0..4u64 {
        let raw = sess_b.encrypt_first(&format!("m{}", i), &[], &[]).unwrap();
        cts.push(ct_base64.encode(&raw));
    }
    let mut got = std::collections::HashMap::new();
    for seq in [2u64, 0, 3, 1, 0, 2] {
        let plain = sess_a.decrypt_message(&cts[seq as usize], &kp, seq).unwrap();
        got.insert(seq, plain);
    }
    assert_eq!(got[&0], "m0");
    assert_eq!(got[&1], "m1");
    assert_eq!(got[&2], "m2");
    assert_eq!(got[&3], "m3");
    let replay = sess_a.decrypt_message(&cts[1], &kp, 1).unwrap();
    assert_eq!(replay, "m1");
}

#[test]
fn initiator_and_responder_start_on_matching_chains() {
    let secret = [0x77u8; 32];
    let kp = MlKem1024Keypair::from_seed(&[1u8; 64]).unwrap();
    let mut a = DoubleRatchetSession::new("b", "NN-1111-2222", "a", true, &secret).unwrap();
    let mut b = DoubleRatchetSession::new("a", "NN-3333-4444", "b", false, &secret).unwrap();
    assert_eq!(a.state().send_chain_key, b.state().recv_chain_key);
    assert_eq!(a.state().recv_chain_key, b.state().send_chain_key);
    let raw = a.encrypt_first("first message", &[], &[]).unwrap();
    let text = base64::engine::general_purpose::STANDARD.encode(&raw);
    assert_eq!(b.decrypt_first(&text, &kp).unwrap(), "first message");
}

#[test]
fn short_secret_and_bad_input_are_refused() {
    assert!(DoubleRatchetSession::new("p", "n", "o", true, &[0u8; 31]).is_err());
    let kp = MlKem1024Keypair::from_seed(&[1u8; 64]).unwrap();
    let mut s = DoubleRatchetSession::new("p", "n", "o", true, &[0u8; 32]).unwrap();
    assert!(s.decrypt_message("not base64!", &kp, 0).is_err());
    assert!(s.decrypt_message("AAAA", &kp, 0).is_err());
    assert!(DoubleRatchetSession::state_is_well_formed(s.state()));
}

#[test]
fn self_session_decrypts_its_own_messages() {
    let kp = MlKem1024Keypair::from_seed(&[5u8; 64]).unwrap();
    let mut s = DoubleRatchetSession::new_self("me", "NN-0000-0000", "me", &[9u8; 32]).unwrap();
    let mut r = DoubleRatchetSession::new_self("me", "NN-0000-0000", "me", &[9u8; 32]).unwrap();
    let raw = s.encrypt_first("note to self", &[], &[]).unwrap();
    let text = base64::engine::general_purpose::STANDARD.encode(&raw);
    assert_eq!(r.decrypt_message(&text, &kp, 0).unwrap(), "note to self");
}

#[test]
fn enc_key_text_roundtrip() {
    let kp = MlKem1024Keypair::from_seed(&[3u8; 64]).unwrap();
    let text = encode_enc_key(&kp.enc);
    let back = decode_enc_key(&text).unwrap();
    assert_eq!(back.to_bytes(), kp.enc.to_bytes());
    assert!(decode_enc_key("AAAA").is_err());
    assert!(decode_enc_key("***").is_err());
}

#[test]
fn storage_records_roundtrip() {
    let kp = MlKem1024Keypair::from_seed(&[4u8; 64]).unwrap();
    let key = [8u8; 32];
    let (e, n, c) = kp.storage_record(&key).unwrap();
    let back = MlKem1024Keypair::from_storage_record(&e, &n, &c, &key).unwrap();
    assert_eq!(back.enc.to_bytes(), kp.enc.to_bytes());
    assert_eq!(back.dec.to_bytes(), kp.dec.to_bytes());
    assert!(MlKem1024Keypair::from_storage_record(&e, &n, &c, &[9u8; 32]).is_err());
    let (e2, d2) = kp.unencrypted_record();
    let back2 = MlKem1024Keypair::from_unencrypted_record(&e2, &d2).unwrap();
    assert_eq!(back2.dec.to_bytes(), kp.dec.to_bytes());
    assert!(MlKem1024Keypair::from_unencrypted_record(&e2, "00").is_err());
}

#[test]
fn variant_sizes_and_keypairs() {
    assert_eq!(MlKemVariant::MlKem768.enc_key_size(), 1184);
    assert_eq!(MlKemVariant::MlKem1024.ciphertext_size(), 1568);
    assert_eq!(MlKemVariant::MlKem768.shared_secret_size(), 32);
    assert_eq!(MlKemVariant::MlKem768.min_ciphertext_len(), 1184 + 1088 + 28);
    assert_eq!(MlKemVariant::MlKem1024.security_level(), "NIST Level 5 (256-bit equivalent)");
    assert_eq!(MlKemVariant::DEFAULT, MlKemVariant::MlKem1024);
    let v = VariantKeypair::generate(MlKemVariant::MlKem1024).unwrap();
    assert_eq!(v.enc_bytes().len(), 1568);
    assert_eq!(v.dec_bytes().len(), 64);
    assert!(v.as_1024().is_ok());
    let w = VariantKeypair::generate(MlKemVariant::MlKem768).unwrap();
    assert_eq!(w.enc_bytes().len(), 1184);
    assert!(w.as_1024().is_err());
}
