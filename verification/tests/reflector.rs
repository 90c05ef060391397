use add_crypto_core::bot_config::BotConfig;
use add_crypto_core::messaging::sha256_hex;
use add_crypto_core::reflector::{reflector_step, Frame, FrameFields, JsonField, ReflectorAction, ReflectorState};

fn s(x: &str) -> JsonField {
    JsonField::Str(x.to_string())
}

fn fields(msg_type: JsonField, type_field: JsonField) -> FrameFields {
    FrameFields {
        msg_type,
        type_field,
        public_key: JsonField::Absent,
        payload_ciphertext: JsonField::Absent,
        ciphertext: JsonField::Absent,
    }
}

#[test]
fn reflector_echoes_first_message_after_hello() {
    let mut hello = fields(s("p2p-hello"), JsonField::Absent);
    hello.public_key = s("TESTFP00000000000000000000000000000000");
    let (st, act) = reflector_step(&ReflectorState::AwaitingHello, "ECHO:", &Frame::Text(Some(hello)));
    assert!(matches!(act, ReflectorAction::SendHelloAck { .. }));
    match &st {
        ReflectorState::Echoing { peer_fp } => assert_eq!(peer_fp, "TESTFP00000000000000000000000000000000"),
        _ => panic!("expected echoing"),
    }
    // a delivery-token frame is skipped
    let token = fields(s("delivery-token"), JsonField::Absent);
    let (st, act) = reflector_step(&st, "ECHO:", &Frame::Text(Some(token)));
    assert!(matches!(act, ReflectorAction::Continue));
    let (st, act) = reflector_step(&st, "ECHO:", &Frame::Text(None));
    assert!(matches!(act, ReflectorAction::Continue));
    let (st, act) = reflector_step(&st, "ECHO:", &Frame::Other);
    assert!(matches!(act, ReflectorAction::Continue));
    let mut msg = fields(JsonField::Absent, s("p2p-message"));
    msg.payload_ciphertext = s("hello-world");
    msg.ciphertext = s("ignored");
    let (st, act) = reflector_step(&st, "ECHO:", &Frame::Text(Some(msg)));
    match act {
        ReflectorAction::SendEcho { text, recipient, msg_hash, .. } => {
            assert_eq!(text, "ECHO:hello-world");
            assert_eq!(recipient, "TESTFP00000000000000000000000000000000");
            assert_eq!(msg_hash, sha256_hex(b"hello-world"));
        }
        _ => panic!("expected echo"),
    }
    assert!(matches!(st, ReflectorState::Done));
    assert!(matches!(reflector_step(&st, "ECHO:", &Frame::Close).1, ReflectorAction::Stop));
}

#[test]
fn reflector_rejects_non_hello_and_defaults() {
    let bad = fields(s("p2p-message"), JsonField::Absent);
    let (st, act) = reflector_step(&ReflectorState::AwaitingHello, "E:", &Frame::Text(Some(bad)));
    assert!(matches!(st, ReflectorState::Done));
    match act {
        ReflectorAction::Fail(m) => assert_eq!(m, "expected p2p-hello"),
        _ => panic!("expected failure"),
    }
    // `msg_type` present but not a string hides `type`
    let odd = fields(JsonField::Other, s("p2p-hello"));
    assert!(matches!(reflector_step(&ReflectorState::AwaitingHello, "E:", &Frame::Text(Some(odd))).1, ReflectorAction::Fail(_)));
    // the bare `type` key is accepted; unknown peer
    let hello = fields(JsonField::Absent, s("p2p-hello"));
    let (st, _) = reflector_step(&ReflectorState::AwaitingHello, "E:", &Frame::Text(Some(hello)));
    match &st {
        ReflectorState::Echoing { peer_fp } => assert_eq!(peer_fp, "unknown"),
        _ => panic!("expected echoing"),
    }
    // a message without ciphertext echoes the bare prefix
    let (_, act) = reflector_step(&st, "E:", &Frame::Text(Some(fields(s("p2p-message"), JsonField::Absent))));
    match act {
        ReflectorAction::SendEcho { text, .. } => assert_eq!(text, "E:"),
        _ => panic!("expected echo"),
    }
    assert!(matches!(reflector_step(&st, "E:", &Frame::Error).1, ReflectorAction::Stop));
    assert!(matches!(reflector_step(&ReflectorState::AwaitingHello, "E:", &Frame::Close).1, ReflectorAction::Stop));
}

#[test]
fn test_reflector_echo_roundtrip() {
    let config = BotConfig::default();
    let prefix = config.reflector.prefix.as_str();
    let own_fp = "TESTFP00000000000000000000000000000000";
    // 1) hello with the bare `type` key
    let mut hello = fields(JsonField::Absent, s("p2p-hello"));
    hello.public_key = s(own_fp);
    let (st, act) = reflector_step(&ReflectorState::AwaitingHello, prefix, &Frame::Text(Some(hello)));
    // 2) the session answers with its hello-ack
    match act {
        ReflectorAction::SendHelloAck { public_key, nonce, pow_bits, braid } => {
            assert_eq!(public_key, "3957378550B111F2678DC1B4A58C27B22091D5CF");
            assert_eq!(nonce, 1);
            assert_eq!(pow_bits, 16);
            assert!(!braid);
        }
        _ => panic!("expected hello-ack"),
    }
    // 3) a message
    let mut msg = fields(JsonField::Absent, s("p2p-message"));
    msg.ciphertext = s("hello-world");
    let (_, act) = reflector_step(&st, prefix, &Frame::Text(Some(msg)));
    // 4) the echo carries the prefix
    match act {
        ReflectorAction::SendEcho { text, recipient, seq, .. } => {
            assert_eq!(seq, 1);
            assert!(text.starts_with("🤖") || text.starts_with("ECHO:"));
            assert_eq!(text, format!("{}hello-world", prefix));
            assert_eq!(recipient, own_fp);
        }
        _ => panic!("expected echo"),
    }
}

#[test]
fn test_reflector_rejects_non_hello() {
    let config = BotConfig::default();
    let other = fields(JsonField::Absent, s("other"));
    let (st, act) = reflector_step(&ReflectorState::AwaitingHello, &config.reflector.prefix, &Frame::Text(Some(other)));
    assert!(matches!(st, ReflectorState::Done));
    assert!(matches!(act, ReflectorAction::Fail(_)));
}

#[test]
fn hello_ack_signature_input() {
    assert_eq!(add_crypto_core::reflector::hello_ack_sig_input("{\"a\":1}"), "p2p-hello-ack:{\"a\":1}\n");
}
