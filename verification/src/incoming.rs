//! Receiving a direct (P2P) message on our listener: the session's steps
//! from the peer's hello to the message, fail-closed on every check, and
//! the opening of the message: the ratchet session it starts from the
//! initiator's KEM ciphertext, its decryption and the removal of the
//! padding.  The caller performs the network I/O and the signature checks.
use vstd::prelude::*;
use vstd::string::{StringExecFns, StringSliceAdditionalSpecFns};
use vstd::utf8::{decode_utf8, encode_utf8, valid_utf8};
use crate::error::CryptoError;
use crate::handshake::{check_inbound_hello, envelope_peer, envelope_type, inbound_refusal,
    str_or_empty, EnvelopeFields, HelloCheck};
use crate::identity::{null_id, null_id_of};
use crate::kyber::{MlKem1024EncapsulationKey, MlKem1024Keypair};
use crate::messaging::{law_pad_unpad_roundtrip, pad_len, sha256_hex, unpad_message_bucket, unpad_outcome, PadError};
use crate::ratchet_laws::{law_initial_chains_agree, law_kyber_message_roundtrip};
use crate::relay::{p2p_prepared, padded_text_bytes, P2pOutgoing};
use crate::skipped::entries_has;
use crate::primitives::{base64_decode, base64_std_decode, hex_lower, mlkem1024_decaps, mlkem1024_encaps, sha256, MLKEM1024_CT_LEN};
use crate::ratchet::{decrypt_model, initial_model, model_wf, DoubleRatchetSession, RatchetModel};
use crate::messaging::padded;
use crate::reflector::{field_as_str, JsonField};

verus! {

/// What the listener reads of a text frame.
#[derive(Debug, Clone)]
pub struct InboundFields {
    /// The envelope fields of a hello (type, signature, sender, KEM key).
    pub envelope: EnvelopeFields,
    /// `payload.ciphertext`
    pub ciphertext: JsonField,
    /// `payload.seq`, when it is an unsigned integer
    pub seq: Option<u64>,
    /// `payload.init_kyber_ct`
    pub init_kyber_ct: JsonField,
}

/// What happened on the connection.
#[derive(Debug, Clone)]
pub enum IncomingEvent {
    /// A text frame: its fields, or `None` when it is not JSON.
    Text(Option<InboundFields>),
    /// A binary frame: the fields of its bytes read as (lossy) UTF-8
    /// text, or `None` when that text is not JSON.
    Binary(Option<InboundFields>),
    /// A frame that is neither text, binary nor a close (ping, pong, ...).
    Other,
    /// The peer closed the connection.
    Closed,
    /// Reading failed.
    Error,
    /// The outcome of the signature check the last action asked for.
    SignatureChecked(bool),
}

/// Where an inbound session stands.
#[derive(Debug, Clone)]
pub enum IncomingState {
    AwaitingHello,
    /// The hello passed the gates; its signature is being checked.  It
    /// asked for the braided key exchange or not, and carried the peer's
    /// ML-KEM key inline.
    HelloPending { peer_fp: String, braid: bool, inline_key: String },
    /// Our hello-ack went out; waiting for the `p2p-message`.
    AwaitingMessage { peer_fp: String },
    /// The message arrived; its signature is being checked.
    MessagePending { peer_fp: String, ciphertext: String, seq: u64, init_kyber_ct: Option<String> },
    Done,
}

/// What the caller must do next.
#[derive(Debug, Clone)]
pub enum IncomingAction {
    /// Read the next frame.
    Continue,
    /// Check the signature of `peer_fp` over the frame's payload and report
    /// the outcome.
    VerifySignature { peer_fp: String },
    /// Send our signed hello-ack; then, with `braid`, run the braided key
    /// exchange and bind the key it yields to `inline_key`, else take
    /// `inline_key` as the peer's key.
    SendHelloAck { braid: bool, inline_key: String },
    /// Open the message (see `incoming_session` and `open_incoming`), then
    /// send the ack and the receipt; the session is over.
    Open { peer_fp: String, ciphertext: String, seq: u64, init_kyber_ct: Option<String> },
    /// Refuse the connection with this error.
    Refuse(String),
}

/// The step's outcome is `Done` with a refusal `msg`.
pub open spec fn refused_with(r: (IncomingState, IncomingAction), msg: Seq<char>) -> bool {
    r.0 matches IncomingState::Done && (r.1 matches IncomingAction::Refuse(m) && m@ == msg)
}

/// The step on a hello: refused by `inbound_refusal`, or its signature
/// checked next, with the braid flag and inline key it carries kept.
pub open spec fn hello_stepped(f: InboundFields, contact_fps: Seq<String>, r: (IncomingState, IncomingAction)) -> bool {
    match inbound_refusal(f.envelope, contact_fps) {
        Some(msg) => refused_with(r, msg),
        None => (r.0 matches IncomingState::HelloPending { peer_fp, braid, inline_key } && peer_fp@ == envelope_peer(
            f.envelope,
        ) && braid == (f.envelope.braid == Some(true)) && inline_key@ == str_or_empty(f.envelope.kyber_enc_key))
            && (r.1 matches IncomingAction::VerifySignature { peer_fp } && peer_fp@ == envelope_peer(f.envelope)),
    }
}

fn hello_step(f: InboundFields, contact_fps: &[String]) -> (r: (IncomingState, IncomingAction))
    ensures
        hello_stepped(f, contact_fps@, r),
{
    match check_inbound_hello(&f.envelope, contact_fps) {
        HelloCheck::Refused(m) => (IncomingState::Done, IncomingAction::Refuse(m)),
        HelloCheck::Verify { peer_fp, braid, inline_key } => {
            let p2 = peer_fp.clone();
            (IncomingState::HelloPending { peer_fp, braid, inline_key }, IncomingAction::VerifySignature { peer_fp: p2 })
        },
    }
}

/// One step of an inbound session:
/// - a hello (a text or binary frame) goes through `check_inbound_hello`;
///   one that passes has its signature checked, and a good signature is
///   answered with our ack;
/// - while waiting for the message, frames of other types are skipped; a
///   `p2p-message` without a signature is refused, one with a signature has
///   it checked, and a good signature opens the message;
/// - a failed check, a close or a read error ends the session with an
///   error.
pub fn incoming_step(state: IncomingState, event: IncomingEvent, contact_fps: &[String]) -> (r: (IncomingState, IncomingAction))
    ensures
        match (state, event) {
            (IncomingState::AwaitingHello, IncomingEvent::Text(Some(f))) => hello_stepped(f, contact_fps@, r),
            (IncomingState::AwaitingHello, IncomingEvent::Binary(Some(f))) => hello_stepped(f, contact_fps@, r),
            (IncomingState::AwaitingHello, IncomingEvent::Text(None)) => refused_with(r, "hello is not JSON"@),
            (IncomingState::AwaitingHello, IncomingEvent::Binary(None)) => refused_with(r, "hello is not JSON"@),
            (IncomingState::AwaitingHello, IncomingEvent::Closed) => refused_with(r, "connection closed before hello"@),
            (IncomingState::AwaitingHello, IncomingEvent::Error) => refused_with(r, "ws read err"@),
            (IncomingState::AwaitingHello, _) => refused_with(r, "unexpected message type for hello"@),
            (IncomingState::HelloPending { peer_fp, braid, inline_key }, IncomingEvent::SignatureChecked(true)) => (r.0 matches IncomingState::AwaitingMessage {
                peer_fp: p,
            } && p@ == peer_fp@) && (r.1 matches IncomingAction::SendHelloAck { braid: b, inline_key: k } && b == braid
                && k@ == inline_key@),
            (IncomingState::HelloPending { peer_fp, .. }, _) => refused_with(
                r,
                "p2p-hello signature verification failed for "@ + peer_fp@,
            ),
            (IncomingState::AwaitingMessage { peer_fp }, IncomingEvent::Text(Some(f))) => if envelope_type(f.envelope)
                != Some("p2p-message"@) {
                (r.0 matches IncomingState::AwaitingMessage { peer_fp: p } && p@ == peer_fp@) && r.1 matches IncomingAction::Continue
            } else if str_or_empty(f.envelope.sig).len() == 0 {
                refused_with(r, "p2p-message from "@ + peer_fp@ + " has no signature — rejecting (MITM risk)"@)
            } else {
                (r.0 matches IncomingState::MessagePending { peer_fp: p, ciphertext, seq, init_kyber_ct } && p@ == peer_fp@
                    && ciphertext@ == str_or_empty(f.ciphertext) && seq == (match f.seq {
                    Some(n) => n,
                    None => 0,
                }) && match (init_kyber_ct, f.init_kyber_ct) {
                    (Some(c), JsonField::Str(t)) => c@ == t@,
                    (None, JsonField::Str(_)) => false,
                    (Some(_), _) => false,
                    (None, _) => true,
                }) && (r.1 matches IncomingAction::VerifySignature { peer_fp: q } && q@ == peer_fp@)
            },
            (IncomingState::AwaitingMessage { peer_fp }, IncomingEvent::Closed) => refused_with(
                r,
                "connection closed before p2p-message"@,
            ),
            (IncomingState::AwaitingMessage { peer_fp }, IncomingEvent::Error) => refused_with(r, "ws read err"@),
            (IncomingState::AwaitingMessage { peer_fp }, IncomingEvent::SignatureChecked(_)) => refused_with(
                r,
                "unexpected signature outcome"@,
            ),
            (IncomingState::AwaitingMessage { peer_fp }, _) => (r.0 matches IncomingState::AwaitingMessage { peer_fp: p }
                && p@ == peer_fp@) && r.1 matches IncomingAction::Continue,
            (
                IncomingState::MessagePending { peer_fp, ciphertext, seq, init_kyber_ct },
                IncomingEvent::SignatureChecked(true),
            ) => r.0 matches IncomingState::Done && r.1 == IncomingAction::Open {
                peer_fp,
                ciphertext,
                seq,
                init_kyber_ct,
            },
            (IncomingState::MessagePending { peer_fp, ciphertext, seq, init_kyber_ct }, _) => refused_with(
                r,
                "p2p-message signature verification failed for "@ + peer_fp@ + " — possible MITM, rejecting"@,
            ),
            (IncomingState::Done, _) => r.0 matches IncomingState::Done && r.1 matches IncomingAction::Continue,
        },
{
    match state {
        IncomingState::AwaitingHello => match event {
            IncomingEvent::Text(Some(f)) => hello_step(f, contact_fps),
            IncomingEvent::Binary(Some(f)) => hello_step(f, contact_fps),
            IncomingEvent::Text(None) => (IncomingState::Done, IncomingAction::Refuse("hello is not JSON".to_string())),
            IncomingEvent::Binary(None) => (IncomingState::Done, IncomingAction::Refuse("hello is not JSON".to_string())),
            IncomingEvent::Closed => (
                IncomingState::Done,
                IncomingAction::Refuse("connection closed before hello".to_string()),
            ),
            IncomingEvent::Error => (IncomingState::Done, IncomingAction::Refuse("ws read err".to_string())),
            _ => (IncomingState::Done, IncomingAction::Refuse("unexpected message type for hello".to_string())),
        },
        IncomingState::HelloPending { peer_fp, braid, inline_key } => match event {
            IncomingEvent::SignatureChecked(true) => (
                IncomingState::AwaitingMessage { peer_fp },
                IncomingAction::SendHelloAck { braid, inline_key },
            ),
            _ => (
                IncomingState::Done,
                IncomingAction::Refuse(String::from_str("p2p-hello signature verification failed for ").concat(peer_fp.as_str())),
            ),
        },
        IncomingState::AwaitingMessage { peer_fp } => match event {
            IncomingEvent::Text(Some(f)) => {
                if !message_type(&f.envelope) {
                    return (IncomingState::AwaitingMessage { peer_fp }, IncomingAction::Continue);
                }
                let has_sig = match field_as_str(&f.envelope.sig) {
                    Some(s) => !s.is_empty(),
                    None => false,
                };
                if !has_sig {
                    let m = String::from_str("p2p-message from ").concat(peer_fp.as_str()).concat(
                        " has no signature — rejecting (MITM risk)",
                    );
                    return (IncomingState::Done, IncomingAction::Refuse(m));
                }
                let ciphertext = match field_as_str(&f.ciphertext) {
                    Some(c) => c.to_string(),
                    None => String::new(),
                };
                let seq = match f.seq {
                    Some(n) => n,
                    None => 0,
                };
                let init_kyber_ct = match &f.init_kyber_ct {
                    JsonField::Str(t) => Some(t.clone()),
                    _ => None,
                };
                let p2 = peer_fp.clone();
                (
                    IncomingState::MessagePending { peer_fp, ciphertext, seq, init_kyber_ct },
                    IncomingAction::VerifySignature { peer_fp: p2 },
                )
            },
            IncomingEvent::Closed => (
                IncomingState::Done,
                IncomingAction::Refuse("connection closed before p2p-message".to_string()),
            ),
            IncomingEvent::Error => (IncomingState::Done, IncomingAction::Refuse("ws read err".to_string())),
            IncomingEvent::SignatureChecked(_) => (
                IncomingState::Done,
                IncomingAction::Refuse("unexpected signature outcome".to_string()),
            ),
            _ => (IncomingState::AwaitingMessage { peer_fp }, IncomingAction::Continue),
        },
        IncomingState::MessagePending { peer_fp, ciphertext, seq, init_kyber_ct } => match event {
            IncomingEvent::SignatureChecked(true) => (
                IncomingState::Done,
                IncomingAction::Open { peer_fp, ciphertext, seq, init_kyber_ct },
            ),
            _ => {
                let m = String::from_str("p2p-message signature verification failed for ").concat(peer_fp.as_str()).concat(
                    " — possible MITM, rejecting",
                );
                (IncomingState::Done, IncomingAction::Refuse(m))
            },
        },
        IncomingState::Done => (IncomingState::Done, IncomingAction::Continue),
    }
}

fn message_type(f: &EnvelopeFields) -> (r: bool)
    ensures
        r == (envelope_type(*f) == Some("p2p-message"@)),
{
    let t = match &f.msg_type {
        JsonField::Absent => field_as_str(&f.type_field),
        other => field_as_str(other),
    };
    match t {
        Some(s) => crate::text::str_eq(s, "p2p-message"),
        None => false,
    }
}

/// Why a received message could not be opened.
#[derive(Debug, Clone, PartialEq, Eq)]
pub enum IncomingError {
    /// `init_kyber_ct` is not base64.
    InitCtDecode,
    /// `init_kyber_ct` is not an ML-KEM-1024 ciphertext.
    InitCtParse,
    /// No initiator ciphertext and no peer key to fall back on.
    NoPeerKey,
    /// The ratchet refused the message.
    Decrypt(CryptoError),
    /// The decrypted text is not a padded message.
    Unpad(PadError),
}

/// The secret a received session starts from: the decapsulation of the
/// initiator's KEM ciphertext, or, without one, a fresh encapsulation (with
/// randomness `m`) to the peer's key.
pub open spec fn incoming_secret(
    dec: Seq<u8>,
    init_ct: Option<Seq<char>>,
    peer_ek: Option<Seq<u8>>,
    m: Seq<u8>,
) -> Result<Seq<u8>, IncomingError> {
    match init_ct {
        Some(t) => match base64_std_decode(t) {
            None => Err(IncomingError::InitCtDecode),
            Some(ct) => if ct.len() != MLKEM1024_CT_LEN {
                Err(IncomingError::InitCtParse)
            } else {
                Ok(mlkem1024_decaps(dec, ct))
            },
        },
        None => match peer_ek {
            None => Err(IncomingError::NoPeerKey),
            Some(ek) => Ok(mlkem1024_encaps(ek, m).1),
        },
    }
}

/// The responder's session on a secret: the peer's fingerprint and Null
/// ID, our fingerprint, not the initiator.
pub open spec fn incoming_model(peer_fp: Seq<char>, our_fp: Seq<char>, ss: Seq<u8>) -> RatchetModel {
    initial_model(peer_fp, null_id_of(encode_utf8(peer_fp)), our_fp, false, false, ss)
}

/// The view of an optional string.
pub open spec fn opt_str_view(o: Option<&str>) -> Option<Seq<char>> {
    match o {
        Some(t) => Some(t@),
        None => None,
    }
}

/// The view of an optional encapsulation key.
pub open spec fn opt_key_view(o: Option<&MlKem1024EncapsulationKey>) -> Option<Seq<u8>> {
    match o {
        Some(k) => Some(k@),
        None => None,
    }
}

/// Start the session of a received message (the caller stores it before
/// opening the message).
pub fn incoming_session(
    peer_fp: &str,
    our_fp: &str,
    our_kyber: &MlKem1024Keypair,
    init_kyber_ct: Option<&str>,
    peer_kyber: Option<&MlKem1024EncapsulationKey>,
) -> (r: Result<DoubleRatchetSession, IncomingError>)
    ensures
        exists|m: Seq<u8>|
            m.len() == 32 && match #[trigger] incoming_secret(
                our_kyber.dec@,
                opt_str_view(init_kyber_ct),
                opt_key_view(peer_kyber),
                m,
            ) {
                Err(e) => r == Err::<DoubleRatchetSession, IncomingError>(e),
                Ok(ss) => r matches Ok(s) && s@ == incoming_model(peer_fp@, our_fp@, ss) && model_wf(s@)
                    && s@.recv_n == 0 && s@.send_n == 0,
            },
{
    let ghost init_v: Option<Seq<char>> = opt_str_view(init_kyber_ct);
    let ghost peer_v: Option<Seq<u8>> = opt_key_view(peer_kyber);
    let ghost zero = Seq::new(32, |i: int| 0u8);
    let ss: Vec<u8> = match init_kyber_ct {
        Some(t) => {
            let ct = match base64_decode(t) {
                Some(c) => c,
                None => {
                    assert(incoming_secret(our_kyber.dec@, init_v, peer_v, zero) is Err);
                    return Err(IncomingError::InitCtDecode);
                },
            };
            if ct.len() != MLKEM1024_CT_LEN {
                assert(incoming_secret(our_kyber.dec@, init_v, peer_v, zero) is Err);
                return Err(IncomingError::InitCtParse);
            }
            let ss = our_kyber.dec.decapsulate(ct.as_slice());
            assert(incoming_secret(our_kyber.dec@, init_v, peer_v, zero) == Ok::<Seq<u8>, IncomingError>(ss@));
            let s = DoubleRatchetSession::new(peer_fp, null_id(peer_fp).as_str(), our_fp, false, ss.as_slice());
            return match s {
                Ok(s) => Ok(s),
                Err(e) => Err(IncomingError::Decrypt(e)),
            };
        },
        None => match peer_kyber {
            None => {
                assert(incoming_secret(our_kyber.dec@, init_v, peer_v, zero) is Err);
                return Err(IncomingError::NoPeerKey);
            },
            Some(k) => {
                let (ct, ss) = match MlKem1024Keypair::encapsulate(k) {
                    Ok(x) => x,
                    Err(e) => return Err(IncomingError::Decrypt(e)),
                };
                let ghost m = choose|m: Seq<u8>| m.len() == 32 && #[trigger] mlkem1024_encaps(k@, m) == (ct@, ss@);
                assert(incoming_secret(our_kyber.dec@, init_v, peer_v, m) == Ok::<Seq<u8>, IncomingError>(ss@));
                ss
            },
        },
    };
    match DoubleRatchetSession::new(peer_fp, null_id(peer_fp).as_str(), our_fp, false, ss.as_slice()) {
        Ok(s) => Ok(s),
        Err(e) => Err(IncomingError::Decrypt(e)),
    }
}

/// What opening a received message on a session gives: the ratchet's
/// decryption of the base64 blob as message `seq`, then the padding
/// removed.
pub open spec fn incoming_opened(
    old: RatchetModel,
    new: RatchetModel,
    dec: Seq<u8>,
    ciphertext_b64: Seq<char>,
    seq: u64,
    r: Result<String, IncomingError>,
) -> bool {
    match base64_std_decode(ciphertext_b64) {
        None => new == old && r matches Err(IncomingError::Decrypt(CryptoError::DecryptFailed(_))),
        Some(raw) => {
            let (m1, out) = decrypt_model(old, raw, seq, dec);
            &&& new == m1
            &&& match out {
                None => r matches Err(IncomingError::Decrypt(CryptoError::DecryptFailed(_))),
                Some(pt) => if !valid_utf8(pt) {
                    r matches Err(IncomingError::Decrypt(CryptoError::DecryptFailed(_)))
                } else {
                    match unpad_outcome(decode_utf8(pt)) {
                        Err(pe) => r == Err::<String, IncomingError>(IncomingError::Unpad(pe)),
                        Ok(text) => r matches Ok(t) && t@ == text,
                    }
                },
            }
        },
    }
}

/// Decrypt a received message on its session and remove the padding.
pub fn open_incoming(
    session: &mut DoubleRatchetSession,
    our_kyber: &MlKem1024Keypair,
    ciphertext_b64: &str,
    seq: u64,
) -> (r: Result<String, IncomingError>)
    requires
        model_wf(old(session)@),
        seq < u64::MAX,
        old(session)@.recv_n < u64::MAX,
    ensures
        incoming_opened(old(session)@, final(session)@, our_kyber.dec@, ciphertext_b64@, seq, r),
        model_wf(final(session)@),
{
    let padded = match session.decrypt_message(ciphertext_b64, our_kyber, seq) {
        Ok(p) => p,
        Err(e) => return Err(IncomingError::Decrypt(e)),
    };
    match unpad_message_bucket(padded.as_str()) {
        Ok(t) => Ok(t),
        Err(e) => Err(IncomingError::Unpad(e)),
    }
}

/// What the listener stores and sends once a message is opened.
#[derive(Debug, Clone)]
pub struct IncomingDelivery {
    /// The stored message's id: hex SHA-256 of the base64 ciphertext.
    pub message_id: String,
    /// The stored message's status (delivered).
    pub status: u8,
    /// `p2p-ack`: its sequence number and the hex SHA-256 of the plaintext.
    pub ack_seq: u64,
    pub ack_msg_hash: String,
    /// `p2p-receipt`: the hex SHA-256 of the ciphertext it signs, the hex
    /// SHA-256 of the plaintext it carries, and its sequence number.
    pub receipt_signed_hash: String,
    pub receipt_msg_hash: String,
    pub receipt_seq: u64,
}

/// The record and the answers for an opened message: stored as delivered
/// under the hash of its ciphertext, acknowledged (sequence 1) with the hash
/// of its plaintext, and receipted with both hashes.
pub fn incoming_delivery(ciphertext_b64: &str, plaintext: &str) -> (r: IncomingDelivery)
    ensures
        r.message_id@ == hex_lower(sha256(ciphertext_b64.spec_bytes())),
        r.status == 2,
        r.ack_seq == 1,
        r.ack_msg_hash@ == hex_lower(sha256(plaintext.spec_bytes())),
        r.receipt_signed_hash@ == hex_lower(sha256(ciphertext_b64.spec_bytes())),
        r.receipt_msg_hash@ == hex_lower(sha256(plaintext.spec_bytes())),
        r.receipt_seq == 1,
{
    let ct_hash = sha256_hex(ciphertext_b64.as_bytes());
    let pt_hash = sha256_hex(plaintext.as_bytes());
    IncomingDelivery {
        message_id: ct_hash.clone(),
        status: 2,
        ack_seq: 1,
        ack_msg_hash: pt_hash.clone(),
        receipt_signed_hash: ct_hash,
        receipt_msg_hash: pt_hash,
        receipt_seq: 1,
    }
}

/// A direct message reaches its reader: the listener's session on the
/// decapsulated initiator ciphertext decrypts the message as message 1 to
/// the padded text, and removing the padding gives the message back, as
/// long as decapsulation with the recipient's key recovers both
/// encapsulated secrets and the padding is shorter than 256 bytes (the most
/// its header byte can announce).
pub proof fn law_p2p_message_opens(
    recipient_fp: Seq<char>,
    our_fp: Seq<char>,
    ek: Seq<u8>,
    dec: Seq<u8>,
    msg: Seq<char>,
    p: Seq<u8>,
    m1: Seq<u8>,
    m2: Seq<u8>,
    out: P2pOutgoing,
)
    requires
        encode_utf8(msg).len() <= 65535,
        p.len() == pad_len(encode_utf8(msg).len()),
        p.len() < 256,
        p2p_prepared(recipient_fp, our_fp, ek, msg, p, m1, m2, out),
        mlkem1024_decaps(dec, mlkem1024_encaps(ek, m1).0) == mlkem1024_encaps(ek, m1).1,
        mlkem1024_decaps(dec, mlkem1024_encaps(ek, m2).0) == mlkem1024_encaps(ek, m2).1,
    ensures
        ({
            let b = incoming_model(our_fp, recipient_fp, mlkem1024_decaps(dec, out.init_kyber_ct@));
            let (b1, opened) = decrypt_model(b, out.ciphertext@, out.seq, dec);
            &&& opened == Some(padded_text_bytes(msg, p))
            &&& valid_utf8(padded_text_bytes(msg, p))
            &&& unpad_outcome(decode_utf8(padded_text_bytes(msg, p))) == Ok::<Seq<char>, PadError>(msg)
            &&& b1.recv_n == 1
        }),
{
    let (kct, ss) = mlkem1024_encaps(ek, m1);
    let start = initial_model(recipient_fp, null_id_of(encode_utf8(recipient_fp)), our_fp, true, false, ss);
    let b = incoming_model(our_fp, recipient_fp, mlkem1024_decaps(dec, out.init_kyber_ct@));
    law_initial_chains_agree(
        recipient_fp,
        null_id_of(encode_utf8(recipient_fp)),
        our_fp,
        our_fp,
        null_id_of(encode_utf8(our_fp)),
        recipient_fp,
        ss,
    );
    assert(!entries_has(b.skipped, 1));
    law_kyber_message_roundtrip(start, out.session@, b, ek, padded_text_bytes(msg, p), m2, out.ciphertext@, 1, dec);
    let h = hex_lower(padded(encode_utf8(msg), p));
    vstd::utf8::encode_utf8_valid_utf8(h);
    vstd::utf8::encode_utf8_decode_utf8(h);
    law_pad_unpad_roundtrip(msg, p);
}

} // verus!
