//! Sending: the strings a relayed message and a read receipt are signed
//! over, and, after a direct message went out, waiting for the peer's ack
//! and read receipt, what each answer means, and the record kept of the
//! message.  The caller reads the frames, signs and checks signatures, and
//! stores the record.
use vstd::prelude::*;
use vstd::string::{StringExecFns, StringSliceAdditionalSpecFns};
use crate::messaging::sha256_hex;
use crate::primitives::{hex_lower, sha256};
use crate::text::{decimal, decimal_string, str_eq};

verus! {

/// What the sender has heard back so far.
#[derive(Debug, Clone, Copy, PartialEq, Eq)]
pub struct SendWait {
    pub ack: bool,
    pub receipt: bool,
}

/// What came in while waiting.
#[derive(Debug, Clone)]
pub enum SendEvent {
    /// A `p2p-ack`.
    Ack,
    /// A `p2p-receipt`: whether its signature verified, and the message
    /// hash it confirms.
    Receipt { signature_ok: bool, msg_hash: String },
    /// A `p2p-message` bounced back (a loopback such as the reflector).
    Echo,
    /// A text frame of another type.
    OtherText,
    /// A text frame that is not JSON.
    Malformed,
    /// A frame that is not text.
    OtherFrame,
    /// The peer closed the connection.
    Closed,
    /// Nothing came within the wait.
    TimedOut,
    /// Reading failed.
    Error,
}

/// What the sender reports on an answer.
#[derive(Debug, Clone, PartialEq, Eq)]
pub enum SendNote {
    /// The peer acknowledged the message.
    Delivered,
    /// A signed receipt for this very message.
    ReadConfirmed,
    /// A signed receipt for another message (possibly forged).
    ReceiptHashMismatch,
    /// A receipt whose signature did not verify.
    ReceiptSignatureFailed,
    /// A loopback echo: the text shown is the message we sent (the bounced
    /// ciphertext is opaque to us).
    Echo(String),
    /// The read failed.
    ReadError,
}

/// Whether to keep waiting.
#[derive(Debug, Clone, Copy, PartialEq, Eq)]
pub enum SendNext {
    Wait,
    /// Stop waiting; the message is stored as sent.
    Finish,
    /// Sending fails (an answer that is not JSON).
    Fail,
}

/// The note an event gives.
pub open spec fn send_note(e: SendEvent, sent_hash: Seq<char>, message: Seq<char>) -> Option<SendNote> {
    match e {
        SendEvent::Ack => Some(SendNote::Delivered),
        SendEvent::Receipt { signature_ok, msg_hash } => if !signature_ok {
            Some(SendNote::ReceiptSignatureFailed)
        } else if msg_hash@ == sent_hash {
            Some(SendNote::ReadConfirmed)
        } else {
            Some(SendNote::ReceiptHashMismatch)
        },
        SendEvent::Error => Some(SendNote::ReadError),
        _ => None,
    }
}

/// One step of waiting for the answers to a sent message (hash
/// `sent_hash`): an ack and a receipt are recorded, whatever the receipt
/// says; the wait ends once both came, or on a close, a timeout or a read
/// error; an answer that is not JSON fails the send.
pub fn send_wait_step(state: SendWait, event: SendEvent, sent_hash: &str, message: &str) -> (r: (
    SendWait,
    Option<SendNote>,
    SendNext,
))
    ensures
        r.0.ack == (state.ack || event is Ack),
        r.0.receipt == (state.receipt || event is Receipt),
        event is Echo ==> (r.1 matches Some(SendNote::Echo(t)) && t@ == message@),
        !(event is Echo) ==> r.1 == send_note(event, sent_hash@, message@),
        r.2 == (if event is Malformed {
            SendNext::Fail
        } else if event is Closed || event is TimedOut || event is Error {
            SendNext::Finish
        } else if r.0.ack && r.0.receipt && (event is Ack || event is Receipt || event is Echo || event is OtherText) {
            SendNext::Finish
        } else {
            SendNext::Wait
        }),
{
    let mut next = SendWait { ack: state.ack, receipt: state.receipt };
    let text_frame: bool;
    let note: Option<SendNote> = match &event {
        SendEvent::Ack => {
            next.ack = true;
            text_frame = true;
            Some(SendNote::Delivered)
        },
        SendEvent::Receipt { signature_ok, msg_hash } => {
            next.receipt = true;
            text_frame = true;
            if !*signature_ok {
                Some(SendNote::ReceiptSignatureFailed)
            } else if str_eq(msg_hash.as_str(), sent_hash) {
                Some(SendNote::ReadConfirmed)
            } else {
                Some(SendNote::ReceiptHashMismatch)
            }
        },
        SendEvent::Echo => {
            text_frame = true;
            Some(SendNote::Echo(message.to_string()))
        },
        SendEvent::OtherText => {
            text_frame = true;
            None
        },
        SendEvent::Malformed => {
            return (next, None, SendNext::Fail);
        },
        SendEvent::OtherFrame => {
            text_frame = false;
            None
        },
        SendEvent::Closed | SendEvent::TimedOut => {
            return (next, None, SendNext::Finish);
        },
        SendEvent::Error => {
            return (next, Some(SendNote::ReadError), SendNext::Finish);
        },
    };
    let step = if text_frame && next.ack && next.receipt {
        SendNext::Finish
    } else {
        SendNext::Wait
    };
    (next, note, step)
}

/// The record kept of a sent message: its id, the hex SHA-256 of the
/// base64 ciphertext, and the status "sent".
pub fn sent_record(ciphertext_b64: &str) -> (r: (String, u8))
    ensures
        r.0@ == hex_lower(sha256(ciphertext_b64.spec_bytes())),
        r.1 == 0,
{
    (sha256_hex(ciphertext_b64.as_bytes()), 0)
}

/// The decimal notation of a signed integer.
pub open spec fn signed_decimal(n: int) -> Seq<char> {
    if n < 0 {
        "-"@ + decimal((-n) as nat)
    } else {
        decimal(n as nat)
    }
}

fn signed_decimal_string(n: i64) -> (s: String)
    ensures
        s@ == signed_decimal(n as int),
{
    if n >= 0 {
        decimal_string(n as u64)
    } else {
        let m: u64 = (0i128 - (n as i128)) as u64;
        let d = decimal_string(m);
        String::from_str("-").concat(d.as_str())
    }
}

/// The string a relayed message's sender signs: recipient Null ID, our Null
/// ID, our fingerprint, the sequence number 1, the time in seconds and the
/// nonce, joined by `|`.
pub fn relay_store_sig_input(recipient_nid: &str, our_nid: &str, our_fp: &str, ts_secs: u64, nonce: i64) -> (r: String)
    ensures
        r@ == recipient_nid@ + "|"@ + our_nid@ + "|"@ + our_fp@ + "|1|"@ + decimal(ts_secs as nat) + "|"@
            + signed_decimal(nonce as int),
{
    let ts = decimal_string(ts_secs);
    let n = signed_decimal_string(nonce);
    String::from_str(recipient_nid).concat("|").concat(our_nid).concat("|").concat(our_fp).concat("|1|").concat(
        ts.as_str(),
    ).concat("|").concat(n.as_str())
}

/// The string a read receipt is signed over: `p2p-receipt:`, the hash it
/// confirms, the time of receipt in seconds and the sequence number 1,
/// joined by `:`.
pub fn receipt_sig_input(msg_hash: &str, received_at_secs: u64) -> (r: String)
    ensures
        r@ == "p2p-receipt:"@ + msg_hash@ + ":"@ + decimal(received_at_secs as nat) + ":1"@,
{
    let t = decimal_string(received_at_secs);
    String::from_str("p2p-receipt:").concat(msg_hash).concat(":").concat(t.as_str()).concat(":1")
}

} // verus!
