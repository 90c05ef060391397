use add_crypto_core::messaging::sha256_hex;
use add_crypto_core::reflector::hello_sig_input;
use add_crypto_core::sending::{
    receipt_sig_input, relay_store_sig_input, send_wait_step, sent_record, SendEvent, SendNext, SendNote, SendWait,
};

const START: SendWait = SendWait { ack: false, receipt: false };

#[test]
fn waiting_ends_after_ack_and_receipt() {
    let (st, note, next) = send_wait_step(START, SendEvent::Ack, "H", "hi");
    assert_eq!(st, SendWait { ack: true, receipt: false });
    assert_eq!(note, Some(SendNote::Delivered));
    assert_eq!(next, SendNext::Wait);
    let (st, note, next) = send_wait_step(st, SendEvent::Echo, "H", "hi");
    assert_eq!(note, Some(SendNote::Echo("hi".to_string())));
    assert_eq!(next, SendNext::Wait);
    let (st, note, next) =
        send_wait_step(st, SendEvent::Receipt { signature_ok: true, msg_hash: "H".to_string() }, "H", "hi");
    assert_eq!(st, SendWait { ack: true, receipt: true });
    assert_eq!(note, Some(SendNote::ReadConfirmed));
    assert_eq!(next, SendNext::Finish);
}

#[test]
fn receipts_are_checked() {
    let bad_sig = SendEvent::Receipt { signature_ok: false, msg_hash: "H".to_string() };
    let (st, note, next) = send_wait_step(START, bad_sig, "H", "hi");
    assert!(st.receipt);
    assert_eq!(note, Some(SendNote::ReceiptSignatureFailed));
    assert_eq!(next, SendNext::Wait);
    let other = SendEvent::Receipt { signature_ok: true, msg_hash: "X".to_string() };
    let (_, note, _) = send_wait_step(START, other, "H", "hi");
    assert_eq!(note, Some(SendNote::ReceiptHashMismatch));
}

#[test]
fn waiting_stops_or_fails() {
    assert_eq!(send_wait_step(START, SendEvent::Closed, "H", "hi").2, SendNext::Finish);
    assert_eq!(send_wait_step(START, SendEvent::TimedOut, "H", "hi").2, SendNext::Finish);
    let (_, note, next) = send_wait_step(START, SendEvent::Error, "H", "hi");
    assert_eq!((note, next), (Some(SendNote::ReadError), SendNext::Finish));
    assert_eq!(send_wait_step(START, SendEvent::Malformed, "H", "hi").2, SendNext::Fail);
    let both = SendWait { ack: true, receipt: true };
    // a non-text frame does not end the wait, another text frame does
    assert_eq!(send_wait_step(both, SendEvent::OtherFrame, "H", "hi").2, SendNext::Wait);
    assert_eq!(send_wait_step(both, SendEvent::OtherText, "H", "hi").2, SendNext::Finish);
}

#[test]
fn signed_strings_and_record() {
    assert_eq!(
        relay_store_sig_input("NN-B", "NN-A", "AFP", 1_700_000_000, 1_700_000_000_123_456_789),
        format!("NN-B|NN-A|AFP|1|{}|1700000000123456789", 1_700_000_000f64)
    );
    assert_eq!(relay_store_sig_input("b", "a", "f", 0, -5), "b|a|f|1|0|-5");
    assert_eq!(relay_store_sig_input("b", "a", "f", 0, i64::MIN), format!("b|a|f|1|0|{}", i64::MIN));
    assert_eq!(receipt_sig_input("abcd", 1_700_000_000), format!("p2p-receipt:abcd:{}:1", 1_700_000_000f64));
    assert_eq!(hello_sig_input("{\"a\":1}"), "p2p-hello:{\"a\":1}\n");
    let (id, status) = sent_record("Q1Q=");
    assert_eq!(id, sha256_hex(b"Q1Q="));
    assert_eq!(status, 0);
}
