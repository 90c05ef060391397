//! The decisions of a direct (P2P) message exchange: how a message is
//! routed, which hellos and hello-acks are worth a signature check, and
//! which peer KEM key is accepted.  The caller performs the network I/O
//! and the signature checks, and hands in the fields it read from each
//! envelope.
use vstd::prelude::*;
use vstd::string::StringExecFns;
use crate::kyber::{decode_enc_key, MlKem1024EncapsulationKey};
use crate::messaging::{inbound_peer_allowed, is_contact_fp, is_public_service, reflector_fingerprint,
    reflector_null_id, to_ws_url, ws_url_of};
use crate::primitives::{base64_std_decode, mlkem1024_ek_valid, MLKEM1024_EK_LEN};
use crate::reflector::{field_as_str, field_str, JsonField};
use crate::text::str_eq;

verus! {

/// The fields of a hello or hello-ack envelope that the exchange reads.
#[derive(Debug, Clone)]
pub struct EnvelopeFields {
    /// `msg_type`
    pub msg_type: JsonField,
    /// `type`
    pub type_field: JsonField,
    /// `sig`
    pub sig: JsonField,
    /// `payload.public_key`
    pub public_key: JsonField,
    /// `payload.braid`, when it is a boolean
    pub braid: Option<bool>,
    /// `payload.kyber_enc_key`
    pub kyber_enc_key: JsonField,
}

/// The envelope's type: `msg_type` when present (if a string), else `type`.
pub open spec fn envelope_type(f: EnvelopeFields) -> Option<Seq<char>> {
    match f.msg_type {
        JsonField::Absent => field_str(f.type_field),
        other => field_str(other),
    }
}

/// A string field, or the empty text.
pub open spec fn str_or_empty(f: JsonField) -> Seq<char> {
    match field_str(f) {
        Some(s) => s,
        None => Seq::empty(),
    }
}

/// The sender's fingerprint: `payload.public_key`, else `unknown`.
pub open spec fn envelope_peer(f: EnvelopeFields) -> Seq<char> {
    match field_str(f.public_key) {
        Some(k) => k,
        None => "unknown"@,
    }
}

/// What to do with a received hello or hello-ack.
#[derive(Debug, Clone)]
pub enum HelloCheck {
    /// Refuse the exchange with this error.
    Refused(String),
    /// Check the signature of `peer_fp` over the payload; then take the
    /// peer's KEM key from the braid stream when `braid`, else from
    /// `inline_key` (empty when the envelope has none).
    Verify { peer_fp: String, braid: bool, inline_key: String },
}

/// The exact outcome of a hello check: refused with `msg`, or verify with
/// the envelope's peer, braid flag and inline key.
pub open spec fn hello_check_is(c: HelloCheck, refusal: Option<Seq<char>>, f: EnvelopeFields) -> bool {
    match refusal {
        Some(msg) => c matches HelloCheck::Refused(m) && m@ == msg,
        None => c matches HelloCheck::Verify { peer_fp, braid, inline_key } && peer_fp@ == envelope_peer(f)
            && braid == (f.braid == Some(true)) && inline_key@ == str_or_empty(f.kyber_enc_key),
    }
}

/// Why an inbound hello is refused, if it is: not a `p2p-hello`; a peer
/// that is neither a contact nor the public service; no signature.
pub open spec fn inbound_refusal(f: EnvelopeFields, contact_fps: Seq<String>) -> Option<Seq<char>> {
    if envelope_type(f) != Some("p2p-hello"@) {
        Some("expected p2p-hello"@)
    } else if !(is_contact_fp(contact_fps, envelope_peer(f)) || envelope_peer(f) == reflector_fingerprint()) {
        Some(
            "inbound hello from "@ + envelope_peer(f) + " rejected — not in contact list (mutual-consent gate)"@,
        )
    } else if str_or_empty(f.sig).len() == 0 {
        Some("p2p-hello has no signature — rejecting (MITM risk)"@)
    } else {
        None
    }
}

/// Why a hello-ack is refused, if it is: not a `p2p-hello-ack` (the raw
/// text is quoted), or no signature.
pub open spec fn ack_refusal(f: EnvelopeFields, raw: Seq<char>) -> Option<Seq<char>> {
    if envelope_type(f) != Some("p2p-hello-ack"@) {
        Some("Unexpected response: "@ + raw)
    } else if str_or_empty(f.sig).len() == 0 {
        Some("p2p-hello-ack has no signature — rejecting (MITM risk)"@)
    } else {
        None
    }
}

fn type_is(f: &EnvelopeFields, expected: &str) -> (r: bool)
    ensures
        r == (envelope_type(*f) == Some(expected@)),
{
    let t = match &f.msg_type {
        JsonField::Absent => field_as_str(&f.type_field),
        other => field_as_str(other),
    };
    match t {
        Some(s) => str_eq(s, expected),
        None => false,
    }
}

fn as_text(f: &JsonField) -> (r: String)
    ensures
        r@ == str_or_empty(*f),
{
    match field_as_str(f) {
        Some(s) => s.to_string(),
        None => String::new(),
    }
}

fn peer_of(f: &EnvelopeFields) -> (r: String)
    ensures
        r@ == envelope_peer(*f),
{
    match field_as_str(&f.public_key) {
        Some(s) => s.to_string(),
        None => "unknown".to_string(),
    }
}

fn verify_with(f: &EnvelopeFields) -> (c: HelloCheck)
    ensures
        hello_check_is(c, None, *f),
{
    let braid = match f.braid {
        Some(b) => b,
        None => false,
    };
    HelloCheck::Verify { peer_fp: peer_of(f), braid, inline_key: as_text(&f.kyber_enc_key) }
}

/// Check a hello received on our listener against our contacts'
/// fingerprints.
pub fn check_inbound_hello(f: &EnvelopeFields, contact_fps: &[String]) -> (c: HelloCheck)
    ensures
        hello_check_is(c, inbound_refusal(*f, contact_fps@), *f),
{
    if !type_is(f, "p2p-hello") {
        return HelloCheck::Refused("expected p2p-hello".to_string());
    }
    let peer = peer_of(f);
    if !inbound_peer_allowed(peer.as_str(), contact_fps) {
        let msg = String::from_str("inbound hello from ").concat(peer.as_str()).concat(
            " rejected — not in contact list (mutual-consent gate)",
        );
        return HelloCheck::Refused(msg);
    }
    if as_text(&f.sig).as_str().is_empty() {
        return HelloCheck::Refused("p2p-hello has no signature — rejecting (MITM risk)".to_string());
    }
    verify_with(f)
}

/// Check the hello-ack answering our hello; `raw` is the text it came in.
pub fn check_hello_ack(f: &EnvelopeFields, raw: &str) -> (c: HelloCheck)
    ensures
        hello_check_is(c, ack_refusal(*f, raw@), *f),
{
    if !type_is(f, "p2p-hello-ack") {
        return HelloCheck::Refused(String::from_str("Unexpected response: ").concat(raw));
    }
    if as_text(&f.sig).as_str().is_empty() {
        return HelloCheck::Refused("p2p-hello-ack has no signature — rejecting (MITM risk)".to_string());
    }
    verify_with(f)
}

/// The inline KEM key of a verified envelope, when braid is not in use:
/// the base64 ML-KEM-1024 encapsulation key; absent or undecodable keys
/// abort the exchange.
pub fn inline_peer_key(inline_b64: &str) -> (r: Result<MlKem1024EncapsulationKey, String>)
    ensures
        match base64_std_decode(inline_b64@) {
            Some(b) => if b.len() == MLKEM1024_EK_LEN && mlkem1024_ek_valid(b) {
                r matches Ok(k) && k@ == b
            } else {
                r matches Err(m) && m@ == "No authenticated Kyber public key from peer, aborting (fail-closed)"@
            },
            None => r matches Err(m) && m@ == "No authenticated Kyber public key from peer, aborting (fail-closed)"@,
        },
{
    match decode_enc_key(inline_b64) {
        Ok(k) => Ok(k),
        Err(_) => Err("No authenticated Kyber public key from peer, aborting (fail-closed)".to_string()),
    }
}

/// How a message goes out.
#[derive(Debug, Clone)]
pub enum DeliveryRoute {
    /// Connect to the peer's listener at this WebSocket address.
    Direct { ws_url: String },
    /// Leave it at the relay.
    Relay,
    /// Cannot be delivered.
    Refused(String),
}

/// The route for a message: direct to the address the lookup found;
/// without one, through the relay, except for the public service, which
/// never reads relay mail.
pub fn delivery_route(recipient_nid: &str, found_addr: Option<&str>) -> (r: DeliveryRoute)
    ensures
        match found_addr {
            Some(a) => r matches DeliveryRoute::Direct { ws_url } && ws_url@ == ws_url_of(a@),
            None => if recipient_nid@ == reflector_null_id() {
                r matches DeliveryRoute::Refused(m) && m@ == recipient_nid@
                    + " is a public service but its address is not in the cert store (it may be offline or unpublished). Cannot deliver."@
            } else {
                r matches DeliveryRoute::Relay
            },
        },
{
    match found_addr {
        Some(a) => DeliveryRoute::Direct { ws_url: to_ws_url(a) },
        None => if is_public_service(recipient_nid) {
            DeliveryRoute::Refused(
                String::from_str(recipient_nid).concat(
                    " is a public service but its address is not in the cert store (it may be offline or unpublished). Cannot deliver.",
                ),
            )
        } else {
            DeliveryRoute::Relay
        },
    }
}

} // verus!
