//! The reflector bot's session logic: it waits for a `p2p-hello`, answers
//! it, then echoes the first `p2p-message` back with its prefix, followed by
//! an ack and a read receipt.  The caller performs the network I/O and hands
//! each frame in, already read from its JSON.
use vstd::prelude::*;
use vstd::string::{StringExecFns, StringSliceAdditionalSpecFns};
use crate::messaging::{reflector_fingerprint, sha256_hex};
use crate::primitives::{hex_lower, sha256};
use vstd::utf8::encode_utf8;
use crate::text::str_eq;

verus! {

/// A field of a JSON object: missing, a string, or some other value.
#[derive(Debug, Clone, PartialEq, Eq)]
pub enum JsonField {
    Absent,
    Str(String),
    Other,
}

/// The fields of a text frame's JSON object that the session reads.
#[derive(Debug, Clone)]
pub struct FrameFields {
    /// `msg_type`
    pub msg_type: JsonField,
    /// `type`
    pub type_field: JsonField,
    /// `public_key`
    pub public_key: JsonField,
    /// `payload.ciphertext` (absent when `payload` is not an object)
    pub payload_ciphertext: JsonField,
    /// `ciphertext`
    pub ciphertext: JsonField,
}

/// A frame from the peer.
#[derive(Debug, Clone)]
pub enum Frame {
    /// A text frame: its fields, or `None` when it is not a JSON object.
    Text(Option<FrameFields>),
    /// The peer closed the connection.
    Close,
    /// The connection failed.
    Error,
    /// Any other frame (binary, ping, ...).
    Other,
}

/// Where a reflector session stands.
#[derive(Debug, Clone)]
pub enum ReflectorState {
    AwaitingHello,
    Echoing { peer_fp: String },
    Done,
}

/// What the caller must do after a frame.
#[derive(Debug, Clone)]
pub enum ReflectorAction {
    /// Nothing; read the next frame.
    Continue,
    /// Send the signed `p2p-hello-ack` whose payload carries this
    /// `public_key`, `nonce`, `pow_bits` and `braid` flag (with a fresh
    /// server challenge and KEM key), signed over `hello_ack_sig_input`.
    SendHelloAck { public_key: String, nonce: u64, pow_bits: u64, braid: bool },
    /// Send the echo (`type` `p2p-message`, the text, the recipient), then a
    /// `p2p-ack` with `seq` and a `p2p-receipt` with the hash of the
    /// ciphertext and `seq`; the session is over.
    SendEcho { text: String, recipient: String, msg_hash: String, seq: u64 },
    /// The session ends without error.
    Stop,
    /// The session ends with this error.
    Fail(String),
}

/// The string of a field, if it is one.
pub open spec fn field_str(f: JsonField) -> Option<Seq<char>> {
    match f {
        JsonField::Str(s) => Some(s@),
        _ => None,
    }
}

/// The frame's type: `msg_type` when present (if a string), else `type`.
pub open spec fn frame_type(f: FrameFields) -> Option<Seq<char>> {
    match f.msg_type {
        JsonField::Absent => field_str(f.type_field),
        other => field_str(other),
    }
}

/// The ciphertext a message carries: `payload.ciphertext`, else the
/// top-level `ciphertext`, else empty.
pub open spec fn frame_ciphertext(f: FrameFields) -> Seq<char> {
    match field_str(f.payload_ciphertext) {
        Some(c) => c,
        None => match field_str(f.ciphertext) {
            Some(c) => c,
            None => Seq::empty(),
        },
    }
}

/// The peer's fingerprint from a hello: `public_key`, else `unknown`.
pub open spec fn hello_peer(f: FrameFields) -> Seq<char> {
    match field_str(f.public_key) {
        Some(k) => k,
        None => "unknown"@,
    }
}

pub(crate) fn field_as_str(f: &JsonField) -> (r: Option<&str>)
    ensures
        match r {
            Some(s) => field_str(*f) == Some(s@),
            None => field_str(*f) is None,
        },
{
    match f {
        JsonField::Str(s) => Some(s.as_str()),
        _ => None,
    }
}

fn type_of(f: &FrameFields) -> (r: Option<&str>)
    ensures
        match r {
            Some(s) => frame_type(*f) == Some(s@),
            None => frame_type(*f) is None,
        },
{
    match &f.msg_type {
        JsonField::Absent => field_as_str(&f.type_field),
        other => field_as_str(other),
    }
}

/// Whether a frame's type is `expected`.
fn type_is(f: &FrameFields, expected: &str) -> (r: bool)
    ensures
        r == (frame_type(*f) == Some(expected@)),
{
    match type_of(f) {
        Some(t) => str_eq(t, expected),
        None => false,
    }
}

/// One step of the session: the next state and the action for a frame.
/// Awaiting the hello, a `p2p-hello` moves to echoing with its peer,
/// any other JSON text fails with `expected p2p-hello`, text that is not
/// JSON fails, and anything else ends the session.  While echoing, the
/// first `p2p-message` is echoed with `prefix` and ends the session; a
/// close or error ends it; everything else is skipped.
pub fn reflector_step(state: &ReflectorState, prefix: &str, frame: &Frame) -> (r: (ReflectorState, ReflectorAction))
    ensures
        match (*state, *frame) {
            (ReflectorState::AwaitingHello, Frame::Text(Some(f))) => if frame_type(f) == Some("p2p-hello"@) {
                (r.0 matches ReflectorState::Echoing { peer_fp } && peer_fp@ == hello_peer(f))
                    && (r.1 matches ReflectorAction::SendHelloAck { public_key, nonce, pow_bits, braid }
                    && public_key@ == reflector_fingerprint() && nonce == 1 && pow_bits == 16 && !braid)
            } else {
                r.0 matches ReflectorState::Done && r.1 matches ReflectorAction::Fail(m) && m@ == "expected p2p-hello"@
            },
            (ReflectorState::AwaitingHello, Frame::Text(None)) => r.0 matches ReflectorState::Done
                && r.1 matches ReflectorAction::Fail(m) && m@ == "hello is not JSON"@,
            (ReflectorState::AwaitingHello, _) => r.0 matches ReflectorState::Done && r.1 matches ReflectorAction::Stop,
            (ReflectorState::Echoing { peer_fp }, Frame::Text(Some(f))) => if frame_type(f) == Some("p2p-message"@) {
                r.0 matches ReflectorState::Done && r.1 matches ReflectorAction::SendEcho { text, recipient, msg_hash, seq }
                    && text@ == prefix@ + frame_ciphertext(f) && recipient@ == peer_fp@ && msg_hash@ == hex_lower(
                    sha256(encode_utf8(frame_ciphertext(f))),
                ) && seq == 1
            } else {
                r.0 matches ReflectorState::Echoing { peer_fp: p } && p@ == peer_fp@ && r.1 matches ReflectorAction::Continue
            },
            (ReflectorState::Echoing { peer_fp }, Frame::Close) => r.0 matches ReflectorState::Done
                && r.1 matches ReflectorAction::Stop,
            (ReflectorState::Echoing { peer_fp }, Frame::Error) => r.0 matches ReflectorState::Done
                && r.1 matches ReflectorAction::Stop,
            (ReflectorState::Echoing { peer_fp }, _) => r.0 matches ReflectorState::Echoing { peer_fp: p } && p@ == peer_fp@
                && r.1 matches ReflectorAction::Continue,
            (ReflectorState::Done, _) => r.0 matches ReflectorState::Done && r.1 matches ReflectorAction::Stop,
        },
{
    match state {
        ReflectorState::AwaitingHello => match frame {
            Frame::Text(Some(f)) => {
                if type_is(f, "p2p-hello") {
                    let peer = match field_as_str(&f.public_key) {
                        Some(k) => k.to_string(),
                        None => "unknown".to_string(),
                    };
                    let ack = ReflectorAction::SendHelloAck {
                        public_key: "3957378550B111F2678DC1B4A58C27B22091D5CF".to_string(),
                        nonce: 1,
                        pow_bits: 16,
                        braid: false,
                    };
                    (ReflectorState::Echoing { peer_fp: peer }, ack)
                } else {
                    (ReflectorState::Done, ReflectorAction::Fail("expected p2p-hello".to_string()))
                }
            },
            Frame::Text(None) => (ReflectorState::Done, ReflectorAction::Fail("hello is not JSON".to_string())),
            _ => (ReflectorState::Done, ReflectorAction::Stop),
        },
        ReflectorState::Echoing { peer_fp } => match frame {
            Frame::Text(Some(f)) => {
                if type_is(f, "p2p-message") {
                    let ct: &str = match field_as_str(&f.payload_ciphertext) {
                        Some(c) => c,
                        None => match field_as_str(&f.ciphertext) {
                            Some(c) => c,
                            None => "",
                        },
                    };
                    proof {
                        reveal_strlit("");
                    }
                    let text = String::from_str(prefix).concat(ct);
                    let msg_hash = sha256_hex(ct.as_bytes());
                    let recipient = peer_fp.clone();
                    (ReflectorState::Done, ReflectorAction::SendEcho { text, recipient, msg_hash, seq: 1 })
                } else {
                    (ReflectorState::Echoing { peer_fp: peer_fp.clone() }, ReflectorAction::Continue)
                }
            },
            Frame::Close => (ReflectorState::Done, ReflectorAction::Stop),
            Frame::Error => (ReflectorState::Done, ReflectorAction::Stop),
            _ => (ReflectorState::Echoing { peer_fp: peer_fp.clone() }, ReflectorAction::Continue),
        },
        ReflectorState::Done => (ReflectorState::Done, ReflectorAction::Stop),
    }
}


/// The string a hello is signed over: `p2p-hello:`, its payload's JSON
/// text and a newline.
pub fn hello_sig_input(payload_json: &str) -> (r: String)
    ensures
        r@ == "p2p-hello:"@ + payload_json@ + "\n"@,
{
    String::from_str("p2p-hello:").concat(payload_json).concat("\n")
}

/// What the reflector signs for a hello-ack: `p2p-hello-ack:`, the
/// payload's JSON text and a newline.
pub fn hello_ack_sig_input(payload_json: &str) -> (r: String)
    ensures
        r@ == "p2p-hello-ack:"@ + payload_json@ + "\n"@,
{
    String::from_str("p2p-hello-ack:").concat(payload_json).concat("\n")
}

} // verus!
