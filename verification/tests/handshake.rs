use add_crypto_core::handshake::{
    check_hello_ack, check_inbound_hello, delivery_route, inline_peer_key, DeliveryRoute, EnvelopeFields, HelloCheck,
};
use add_crypto_core::kyber::{encode_enc_key, MlKem1024Keypair};
use add_crypto_core::reflector::JsonField;

const REFLECTOR_FP: &str = "3957378550B111F2678DC1B4A58C27B22091D5CF";

fn s(x: &str) -> JsonField {
    JsonField::Str(x.to_string())
}

fn envelope(kind: &str, sig: &str, fp: &str) -> EnvelopeFields {
    EnvelopeFields {
        msg_type: s(kind),
        type_field: JsonField::Absent,
        sig: s(sig),
        public_key: s(fp),
        braid: None,
        kyber_enc_key: s("KEY"),
    }
}

fn refused(c: HelloCheck) -> String {
    match c {
        HelloCheck::Refused(m) => m,
        HelloCheck::Verify { .. } => panic!("expected a refusal"),
    }
}

#[test]
fn inbound_hello_gates() {
    let contacts = vec!["AAAA".to_string()];
    assert_eq!(refused(check_inbound_hello(&envelope("p2p-message", "sig", "AAAA"), &contacts)), "expected p2p-hello");
    assert_eq!(
        refused(check_inbound_hello(&envelope("p2p-hello", "sig", "BBBB"), &contacts)),
        "inbound hello from BBBB rejected — not in contact list (mutual-consent gate)"
    );
    assert_eq!(
        refused(check_inbound_hello(&envelope("p2p-hello", "", "AAAA"), &contacts)),
        "p2p-hello has no signature — rejecting (MITM risk)"
    );
    let mut braided = envelope("p2p-hello", "sig", "AAAA");
    braided.braid = Some(true);
    match check_inbound_hello(&braided, &contacts) {
        HelloCheck::Verify { peer_fp, braid, inline_key } => {
            assert_eq!(peer_fp, "AAAA");
            assert!(braid);
            assert_eq!(inline_key, "KEY");
        }
        _ => panic!("expected verify"),
    }
    assert!(matches!(check_inbound_hello(&envelope("p2p-hello", "sig", REFLECTOR_FP), &[]), HelloCheck::Verify { .. }));
    let mut anonymous = envelope("p2p-hello", "sig", "x");
    anonymous.public_key = JsonField::Absent;
    assert_eq!(
        refused(check_inbound_hello(&anonymous, &contacts)),
        "inbound hello from unknown rejected — not in contact list (mutual-consent gate)"
    );
    let mut bare = envelope("ignored", "sig", "AAAA");
    bare.msg_type = JsonField::Absent;
    bare.type_field = s("p2p-hello");
    assert!(matches!(check_inbound_hello(&bare, &contacts), HelloCheck::Verify { braid: false, .. }));
}

#[test]
fn hello_ack_gates() {
    assert_eq!(
        refused(check_hello_ack(&envelope("p2p-hello", "sig", "AAAA"), "{raw}")),
        "Unexpected response: {raw}"
    );
    assert_eq!(
        refused(check_hello_ack(&envelope("p2p-hello-ack", "", "AAAA"), "{}")),
        "p2p-hello-ack has no signature — rejecting (MITM risk)"
    );
    let mut no_key = envelope("p2p-hello-ack", "sig", "AAAA");
    no_key.kyber_enc_key = JsonField::Other;
    match check_hello_ack(&no_key, "{}") {
        HelloCheck::Verify { peer_fp, braid, inline_key } => {
            assert_eq!(peer_fp, "AAAA");
            assert!(!braid);
            assert_eq!(inline_key, "");
        }
        _ => panic!("expected verify"),
    }
}

#[test]
fn inline_key_must_decode() {
    let msg = "No authenticated Kyber public key from peer, aborting (fail-closed)";
    assert_eq!(inline_peer_key("").err(), Some(msg.to_string()));
    assert_eq!(inline_peer_key("AAAA").err(), Some(msg.to_string()));
    let kp = MlKem1024Keypair::generate().unwrap();
    let b64 = encode_enc_key(&kp.enc);
    let k = inline_peer_key(&b64).unwrap();
    assert_eq!(k.to_bytes(), kp.enc.to_bytes());
}

#[test]
fn routes_follow_the_lookup() {
    match delivery_route("NN-AAAA-AAAA", Some("http://1.2.3.4:9000")) {
        DeliveryRoute::Direct { ws_url } => assert_eq!(ws_url, "ws://1.2.3.4:9000"),
        _ => panic!("expected direct"),
    }
    assert!(matches!(delivery_route("NN-AAAA-AAAA", None), DeliveryRoute::Relay));
    match delivery_route("NN-1ae2-e797-1e6b-fff8-9e79-f936-0627-d10f", None) {
        DeliveryRoute::Refused(m) => assert_eq!(
            m,
            "NN-1ae2-e797-1e6b-fff8-9e79-f936-0627-d10f is a public service but its address is not in the cert store (it may be offline or unpublished). Cannot deliver."
        ),
        _ => panic!("expected refusal"),
    }
}
