use base64::Engine;

use add_crypto_core::handshake::EnvelopeFields;
use add_crypto_core::identity::null_id;
use add_crypto_core::incoming::{
    incoming_delivery, incoming_session, incoming_step, open_incoming, InboundFields, IncomingAction, IncomingError,
    IncomingEvent, IncomingState,
};
use add_crypto_core::kyber::MlKem1024Keypair;
use add_crypto_core::messaging::{pad_message_bucket, sha256_hex};
use add_crypto_core::ratchet::DoubleRatchetSession;
use add_crypto_core::relay::prepare_p2p_message;
use add_crypto_core::reflector::JsonField;

fn s(x: &str) -> JsonField {
    JsonField::Str(x.to_string())
}

fn b64(b: &[u8]) -> String {
    base64::engine::general_purpose::STANDARD.encode(b)
}

fn frame(kind: &str, sig: &str, fp: &str, ciphertext: &str, seq: Option<u64>, init_ct: Option<&str>) -> IncomingEvent {
    IncomingEvent::Text(Some(InboundFields {
        envelope: EnvelopeFields {
            msg_type: s(kind),
            type_field: JsonField::Absent,
            sig: s(sig),
            public_key: s(fp),
            braid: None,
            kyber_enc_key: s("KEY"),
        },
        ciphertext: s(ciphertext),
        seq,
        init_kyber_ct: match init_ct {
            Some(c) => s(c),
            None => JsonField::Absent,
        },
    }))
}

fn refusal(r: (IncomingState, IncomingAction)) -> String {
    assert!(matches!(r.0, IncomingState::Done));
    match r.1 {
        IncomingAction::Refuse(m) => m,
        other => panic!("expected a refusal, got {:?}", other),
    }
}

#[test]
fn inbound_session_runs_from_hello_to_open() {
    let contacts = vec!["AAAA".to_string()];
    let (st, act) = incoming_step(IncomingState::AwaitingHello, frame("p2p-hello", "sig", "AAAA", "", None, None), &contacts);
    assert!(matches!(&st, IncomingState::HelloPending { peer_fp, braid: false, inline_key }
        if peer_fp == "AAAA" && inline_key == "KEY"));
    assert!(matches!(&act, IncomingAction::VerifySignature { peer_fp } if peer_fp == "AAAA"));

    let (st, act) = incoming_step(st, IncomingEvent::SignatureChecked(true), &contacts);
    assert!(matches!(&st, IncomingState::AwaitingMessage { peer_fp } if peer_fp == "AAAA"));
    assert!(matches!(&act, IncomingAction::SendHelloAck { braid: false, inline_key } if inline_key == "KEY"));

    // control frames before the message are skipped
    let (st, act) = incoming_step(st, frame("p2p-delivery-token", "", "", "", None, None), &contacts);
    assert!(matches!(act, IncomingAction::Continue));
    let (st, act) = incoming_step(st, IncomingEvent::Text(None), &contacts);
    assert!(matches!(act, IncomingAction::Continue));
    let (st, act) = incoming_step(st, IncomingEvent::Other, &contacts);
    assert!(matches!(act, IncomingAction::Continue));

    let (st, act) = incoming_step(st, frame("p2p-message", "msig", "", "CT", Some(7), Some("INIT")), &contacts);
    assert!(matches!(&act, IncomingAction::VerifySignature { peer_fp } if peer_fp == "AAAA"));
    let (st, act) = incoming_step(st, IncomingEvent::SignatureChecked(true), &contacts);
    assert!(matches!(st, IncomingState::Done));
    match act {
        IncomingAction::Open { peer_fp, ciphertext, seq, init_kyber_ct } => {
            assert_eq!(peer_fp, "AAAA");
            assert_eq!(ciphertext, "CT");
            assert_eq!(seq, 7);
            assert_eq!(init_kyber_ct.as_deref(), Some("INIT"));
        }
        other => panic!("expected open, got {:?}", other),
    }
}

#[test]
fn inbound_session_fails_closed() {
    let contacts = vec!["AAAA".to_string()];
    assert_eq!(
        refusal(incoming_step(IncomingState::AwaitingHello, IncomingEvent::Text(None), &contacts)),
        "hello is not JSON"
    );
    assert_eq!(
        refusal(incoming_step(IncomingState::AwaitingHello, IncomingEvent::Closed, &contacts)),
        "connection closed before hello"
    );
    assert_eq!(
        refusal(incoming_step(IncomingState::AwaitingHello, IncomingEvent::Other, &contacts)),
        "unexpected message type for hello"
    );
    assert_eq!(
        refusal(incoming_step(
            IncomingState::AwaitingHello,
            frame("p2p-hello", "", "AAAA", "", None, None),
            &contacts
        )),
        "p2p-hello has no signature — rejecting (MITM risk)"
    );
    assert_eq!(
        refusal(incoming_step(
            IncomingState::HelloPending { peer_fp: "AAAA".to_string(), braid: true, inline_key: "KEY".to_string() },
            IncomingEvent::SignatureChecked(false),
            &contacts
        )),
        "p2p-hello signature verification failed for AAAA"
    );
    let waiting = || IncomingState::AwaitingMessage { peer_fp: "AAAA".to_string() };
    assert_eq!(
        refusal(incoming_step(waiting(), frame("p2p-message", "", "", "CT", None, None), &contacts)),
        "p2p-message from AAAA has no signature — rejecting (MITM risk)"
    );
    assert_eq!(
        refusal(incoming_step(waiting(), IncomingEvent::Closed, &contacts)),
        "connection closed before p2p-message"
    );
    assert_eq!(refusal(incoming_step(waiting(), IncomingEvent::Error, &contacts)), "ws read err");
    let pending = IncomingState::MessagePending {
        peer_fp: "AAAA".to_string(),
        ciphertext: "CT".to_string(),
        seq: 0,
        init_kyber_ct: None,
    };
    assert_eq!(
        refusal(incoming_step(pending, IncomingEvent::SignatureChecked(false), &contacts)),
        "p2p-message signature verification failed for AAAA — possible MITM, rejecting"
    );
    // a message without a seq is taken as message 0
    let (st, _) = incoming_step(waiting(), frame("p2p-message", "sig", "", "CT", None, None), &contacts);
    assert!(matches!(st, IncomingState::MessagePending { seq: 0, init_kyber_ct: None, .. }));
}

#[test]
fn received_message_opens_on_the_session_from_the_initiator_ciphertext() {
    let bob = MlKem1024Keypair::generate().unwrap();
    let (ct, ss) = MlKem1024Keypair::encapsulate(&bob.enc).unwrap();
    let mut alice = DoubleRatchetSession::new("BOBFP", "NN-BBBB-BBBB", "ALICEFP", true, &ss).unwrap();
    let blob = alice.encrypt_message(&pad_message_bucket("hello bob"), &bob.enc).unwrap();

    let mut session = incoming_session("ALICEFP", "BOBFP", &bob, Some(&b64(&ct)), None).unwrap();
    assert_eq!(session.state().peer_fp, "ALICEFP");
    assert_eq!(session.state().our_fp, "BOBFP");
    assert!(!session.state().is_initiator);
    let text = open_incoming(&mut session, &bob, &b64(&blob), 1).unwrap();
    assert_eq!(text, "hello bob");

    let d = incoming_delivery(&b64(&blob), &text);
    assert_eq!(d.message_id, sha256_hex(b64(&blob).as_bytes()));
    assert_eq!(d.status, 2);
    assert_eq!(d.ack_seq, 1);
    assert_eq!(d.ack_msg_hash, sha256_hex(b"hello bob"));
    assert_eq!(d.receipt_signed_hash, d.message_id);
    assert_eq!(d.receipt_msg_hash, d.ack_msg_hash);
    assert_eq!(d.receipt_seq, 1);
}

#[test]
fn received_message_errors() {
    let bob = MlKem1024Keypair::generate().unwrap();
    assert_eq!(
        incoming_session("ALICEFP", "BOBFP", &bob, Some("not base64!"), None).err(),
        Some(IncomingError::InitCtDecode)
    );
    assert_eq!(
        incoming_session("ALICEFP", "BOBFP", &bob, Some(&b64(&[1, 2, 3])), None).err(),
        Some(IncomingError::InitCtParse)
    );
    assert_eq!(incoming_session("ALICEFP", "BOBFP", &bob, None, None).err(), Some(IncomingError::NoPeerKey));
    // without an initiator ciphertext the responder encapsulates to the peer
    let alice = MlKem1024Keypair::generate().unwrap();
    assert!(incoming_session("ALICEFP", "BOBFP", &bob, None, Some(&alice.enc)).is_ok());

    let (ct, _) = MlKem1024Keypair::encapsulate(&bob.enc).unwrap();
    let mut session = incoming_session("ALICEFP", "BOBFP", &bob, Some(&b64(&ct)), None).unwrap();
    assert!(matches!(open_incoming(&mut session, &bob, "%%%", 0), Err(IncomingError::Decrypt(_))));
}

#[test]
fn direct_message_from_initiator_opens_at_the_listener() {
    let bob = MlKem1024Keypair::generate().unwrap();
    let out = prepare_p2p_message("BOBFP", "ALICEFP", &bob.enc, "hi over p2p").unwrap();
    assert_eq!(out.seq, 1);
    assert_eq!(out.msg_hash, sha256_hex(&out.ciphertext));
    assert_eq!(out.session.state().peer_fp, "BOBFP");
    assert_eq!(out.session.state().peer_nid, null_id("BOBFP"));
    assert!(out.session.state().is_initiator);
    assert_eq!(out.session.state().send_message_number, 1);

    let mut session = incoming_session("ALICEFP", "BOBFP", &bob, Some(&b64(&out.init_kyber_ct)), None).unwrap();
    let text = open_incoming(&mut session, &bob, &b64(&out.ciphertext), out.seq).unwrap();
    assert_eq!(text, "hi over p2p");
}

#[test]
fn braided_hello_asks_for_the_key_exchange() {
    let contacts = vec!["AAAA".to_string()];
    let mut hello = frame("p2p-hello", "sig", "AAAA", "", None, None);
    if let IncomingEvent::Text(Some(f)) = &mut hello {
        f.envelope.braid = Some(true);
    }
    let (st, _) = incoming_step(IncomingState::AwaitingHello, hello, &contacts);
    assert!(matches!(&st, IncomingState::HelloPending { braid: true, .. }));
    let (_, act) = incoming_step(st, IncomingEvent::SignatureChecked(true), &contacts);
    assert!(matches!(&act, IncomingAction::SendHelloAck { braid: true, inline_key } if inline_key == "KEY"));
    // a hello from a stranger is refused before any signature check
    let stranger = frame("p2p-hello", "sig", "ZZZZ", "", None, None);
    assert_eq!(
        refusal(incoming_step(IncomingState::AwaitingHello, stranger, &contacts)),
        "inbound hello from ZZZZ rejected — not in contact list (mutual-consent gate)"
    );
}

#[test]
fn binary_hello_is_read_like_text() {
    let contacts = vec!["AAAA".to_string()];
    let binary = match frame("p2p-hello", "sig", "AAAA", "", None, None) {
        IncomingEvent::Text(f) => IncomingEvent::Binary(f),
        _ => unreachable!(),
    };
    let (st, act) = incoming_step(IncomingState::AwaitingHello, binary, &contacts);
    assert!(matches!(&st, IncomingState::HelloPending { peer_fp, .. } if peer_fp == "AAAA"));
    assert!(matches!(&act, IncomingAction::VerifySignature { peer_fp } if peer_fp == "AAAA"));
    assert_eq!(
        refusal(incoming_step(IncomingState::AwaitingHello, IncomingEvent::Binary(None), &contacts)),
        "hello is not JSON"
    );
    // while waiting for the message, binary frames are skipped
    let waiting = IncomingState::AwaitingMessage { peer_fp: "AAAA".to_string() };
    let (st, act) = incoming_step(waiting, IncomingEvent::Binary(None), &contacts);
    assert!(matches!(st, IncomingState::AwaitingMessage { .. }));
    assert!(matches!(act, IncomingAction::Continue));
}
