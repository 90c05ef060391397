use base64::Engine;

use add_crypto_core::kyber::MlKem1024Keypair;
use add_crypto_core::messaging::unpad_message_bucket;
use add_crypto_core::ratchet::DoubleRatchetSession;
use add_crypto_core::identity::null_id;
use add_crypto_core::relay::{onion_layer, open_relay_message, prepare_relay_message, RelayOpenError};

fn b64(b: &[u8]) -> String {
    base64::engine::general_purpose::STANDARD.encode(b)
}

#[test]
fn first_relay_message_starts_a_session_the_recipient_can_follow() {
    let recipient = MlKem1024Keypair::generate().unwrap();
    let (session, blob, kyber_ct) =
        prepare_relay_message(None, false, "BOBFP", "NN-BBBB-BBBB", "ALICEFP", &recipient.enc, "hello bob").unwrap();
    let ct = kyber_ct.expect("a new session ships its KEM ciphertext");
    let ss = recipient.decapsulate(&ct).unwrap();
    let mut bob = DoubleRatchetSession::new("ALICEFP", "NN-AAAA-AAAA", "BOBFP", false, &ss).unwrap();
    let padded = bob.decrypt_first(&b64(&blob), &recipient).unwrap();
    assert_eq!(unpad_message_bucket(&padded).unwrap(), "hello bob");

    // a follow-up goes out on the same session without a KEM ciphertext
    let (_, blob2, ct2) =
        prepare_relay_message(Some(session), false, "BOBFP", "NN-BBBB-BBBB", "ALICEFP", &recipient.enc, "again").unwrap();
    assert!(ct2.is_none());
    let padded2 = bob.decrypt_message(&b64(&blob2), &recipient, 1).unwrap();
    assert_eq!(unpad_message_bucket(&padded2).unwrap(), "again");
}

#[test]
fn self_messages_use_one_shared_chain() {
    let me = MlKem1024Keypair::generate().unwrap();
    let (session, blob, ct) =
        prepare_relay_message(None, true, "MEFP", "NN-MMMM-MMMM", "MEFP", &me.enc, "note to self").unwrap();
    assert!(ct.is_none());
    assert_eq!(blob.len(), 12 + 2 * 256 + 16);
    let (_, blob2, ct2) =
        prepare_relay_message(Some(session), true, "MEFP", "NN-MMMM-MMMM", "MEFP", &me.enc, "second").unwrap();
    assert!(ct2.is_none());
    assert_eq!(blob2.len(), 12 + 2 * 256 + 16);
}

#[test]
fn relayed_messages_open_on_the_recipient_side() {
    let bob = MlKem1024Keypair::generate().unwrap();
    let alice_nid = null_id("ALICEFP");
    let (session, blob, kyber_ct) =
        prepare_relay_message(None, false, "BOBFP", &null_id("BOBFP"), "ALICEFP", &bob.enc, "hello bob").unwrap();
    let ct_hex = hex::encode(kyber_ct.unwrap());
    let (bob_session, text) =
        open_relay_message(None, &alice_nid, "ALICEFP", "BOBFP", &bob, Some(&ct_hex), &b64(&blob), 0).unwrap();
    assert_eq!(text, "hello bob");
    assert_eq!(bob_session.state().peer_fp, "ALICEFP");
    assert_eq!(bob_session.state().peer_nid, alice_nid);
    assert!(!bob_session.state().is_initiator);

    let (_, blob2, ct2) =
        prepare_relay_message(Some(session), false, "BOBFP", &null_id("BOBFP"), "ALICEFP", &bob.enc, "again").unwrap();
    assert!(ct2.is_none());
    let (_, text2) =
        open_relay_message(Some(bob_session), &alice_nid, "ALICEFP", "BOBFP", &bob, None, &b64(&blob2), 1).unwrap();
    assert_eq!(text2, "again");
}

#[test]
fn relayed_message_errors() {
    let bob = MlKem1024Keypair::generate().unwrap();
    let alice_nid = null_id("ALICEFP");
    let open = |stored: Option<DoubleRatchetSession>, nid: &str, ct: Option<&str>| {
        open_relay_message(stored, nid, "ALICEFP", "BOBFP", &bob, ct, "AAAA", 0).err()
    };
    assert_eq!(open(None, &alice_nid, None), Some(RelayOpenError::NoSession));
    assert_eq!(open(None, &alice_nid, Some("zz")), Some(RelayOpenError::KyberCtDecode));
    assert_eq!(open(None, &alice_nid, Some("abcd")), Some(RelayOpenError::KyberCtParse));
    assert_eq!(open(None, &null_id("BOBFP"), Some("abcd")), Some(RelayOpenError::NoSelfSession));
    // a blob the ratchet cannot open
    let (ct, _) = MlKem1024Keypair::encapsulate(&bob.enc).unwrap();
    assert!(matches!(
        open(None, &alice_nid, Some(&hex::encode(&ct))),
        Some(RelayOpenError::Decrypt(_))
    ));
}

#[test]
fn onion_layers_go_out_on_per_relay_sessions() {
    let exit = MlKem1024Keypair::generate().unwrap();
    let (session, blob) = onion_layer(None, "MEFP", "__onion_exit__", &exit.enc, "payload").unwrap();
    assert_eq!(session.state().peer_fp, "MEFP");
    assert_eq!(session.state().peer_nid, "__onion_exit__");
    assert_eq!(session.state().our_fp, "MEFP");
    assert!(session.state().is_initiator);
    assert_eq!(session.state().send_message_number, 1);
    // nonce, AES-GCM of the 7 bytes, the ML-KEM-1024 ciphertext and its length
    assert_eq!(blob.len(), 12 + 7 + 16 + 1568 + 2);
    assert_eq!(&blob[blob.len() - 2..], &[0x06, 0x20]);

    let (session2, blob2) = onion_layer(Some(session), "MEFP", "__onion_exit__", &exit.enc, "more").unwrap();
    assert_eq!(session2.state().send_message_number, 2);
    assert_eq!(blob2.len(), 12 + 4 + 16 + 1568 + 2);
}
