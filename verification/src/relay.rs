//! Preparing a message for relay delivery: which ratchet session it goes
//! out on, when a fresh ML-KEM-1024 encapsulation starts one, and the
//! encryption of the bucket-padded text.  The caller loads and stores the
//! session and talks to the relay.
use vstd::prelude::*;
use vstd::string::StringSliceAdditionalSpecFns;
use vstd::utf8::{decode_utf8, encode_utf8, valid_utf8};
use crate::error::CryptoError;
use crate::kyber::{MlKem1024EncapsulationKey, MlKem1024Keypair};
use crate::identity::{null_id, null_id_of};
use crate::messaging::{pad_len, pad_message_bucket, padded, sha256_hex, unpad_message_bucket, unpad_outcome, PadError};
use crate::text::str_eq;
use crate::primitives::{
    aes256gcm_open, aes256gcm_seal, base64_std_decode, hex_decode, hex_decoded, hex_lower, mlkem1024_decaps,
    mlkem1024_encaps, sha256, MLKEM1024_CT_LEN,
};
use crate::ratchet::{
    after_send, chain_step, decrypt_model, initial_model, kyber_sent, model_wf, simple_decrypt_model, DoubleRatchetSession,
    RatchetModel, NONCE_SIZE,
};

verus! {

/// The bytes that are encrypted for a message with padding `p`: the hex
/// text of its bucket-padded form.
pub open spec fn padded_text_bytes(msg: Seq<char>, p: Seq<u8>) -> Seq<u8> {
    encode_utf8(hex_lower(padded(encode_utf8(msg), p)))
}

/// A first-message encryption of `pt` from `old`: the linear send chain
/// advanced once, and `blob` the nonce and the AES-GCM ciphertext (the
/// plaintext's length plus the tag) under the message key.
pub open spec fn first_sent(old: RatchetModel, new: RatchetModel, pt: Seq<u8>, blob: Seq<u8>) -> bool {
    let mk = chain_step(old.send_chain_key).0;
    &&& new == after_send(old, old.send_chain_key)
    &&& blob.len() == NONCE_SIZE + pt.len() + 16
    &&& blob.subrange(NONCE_SIZE as int, blob.len() as int) == aes256gcm_seal(
        mk,
        blob.subrange(0, NONCE_SIZE as int),
        Seq::empty(),
        pt,
    )
    &&& aes256gcm_open(mk, blob.subrange(0, NONCE_SIZE as int), Seq::empty(), blob.subrange(NONCE_SIZE as int, blob.len() as int))
        == Some(pt)
}

/// What preparing a relay message does, for padding `p` and encapsulation
/// randomness `m`:
/// - to ourselves, on the stored session, or else on a new self session
///   from a fresh encapsulation to our key: a first-message encryption;
/// - to a peer with a stored session: a Kyber-mixed encryption;
/// - to a peer without one: a new initiator session from a fresh
///   encapsulation, a first-message encryption, and the KEM ciphertext to
///   ship with it.
pub open spec fn relay_prepared(
    session: Option<RatchetModel>,
    is_self: bool,
    recipient_fp: Seq<char>,
    recipient_nid: Seq<char>,
    our_fp: Seq<char>,
    ek: Seq<u8>,
    msg: Seq<char>,
    p: Seq<u8>,
    m: Seq<u8>,
    new: RatchetModel,
    blob: Seq<u8>,
    kyber_ct: Option<Seq<u8>>,
) -> bool {
    let pt = padded_text_bytes(msg, p);
    let (kct, ss) = mlkem1024_encaps(ek, m);
    if is_self {
        &&& kyber_ct is None
        &&& match session {
            Some(s) => first_sent(s, new, pt, blob),
            None => first_sent(initial_model(recipient_fp, recipient_nid, our_fp, true, true, ss), new, pt, blob),
        }
    } else {
        match session {
            Some(s) => kyber_ct is None && kyber_sent(s, new, ek, pt, m, blob),
            None => kyber_ct == Some(kct) && kct.len() == MLKEM1024_CT_LEN && first_sent(
                initial_model(recipient_fp, recipient_nid, our_fp, true, false, ss),
                new,
                pt,
                blob,
            ),
        }
    }
}

/// The model of an optional session.
pub open spec fn session_view(s: Option<DoubleRatchetSession>) -> Option<RatchetModel> {
    match s {
        Some(s0) => Some(s0@),
        None => None,
    }
}

/// The bytes of an optional byte vector.
pub open spec fn bytes_view(v: Option<Vec<u8>>) -> Option<Seq<u8>> {
    match v {
        Some(c) => Some(c@),
        None => None,
    }
}

/// The outcome of preparing a relay message: it succeeds, and some padding
/// and encapsulation randomness explain the session, ciphertext and KEM
/// ciphertext it gives (see `relay_prepared`).
pub open spec fn relay_outcome(
    session: Option<RatchetModel>,
    is_self: bool,
    recipient_fp: Seq<char>,
    recipient_nid: Seq<char>,
    our_fp: Seq<char>,
    ek: Seq<u8>,
    msg: Seq<char>,
    r: Result<(DoubleRatchetSession, Vec<u8>, Option<Vec<u8>>), CryptoError>,
) -> bool {
    &&& r is Ok
    &&& exists|p: Seq<u8>, m: Seq<u8>|
        p.len() == pad_len(encode_utf8(msg).len()) && m.len() == 32 && #[trigger] relay_prepared(
            session,
            is_self,
            recipient_fp,
            recipient_nid,
            our_fp,
            ek,
            msg,
            p,
            m,
            r->Ok_0.0@,
            r->Ok_0.1@,
            bytes_view(r->Ok_0.2),
        )
}

proof fn lemma_relay_outcome(
    session: Option<RatchetModel>,
    is_self: bool,
    recipient_fp: Seq<char>,
    recipient_nid: Seq<char>,
    our_fp: Seq<char>,
    ek: Seq<u8>,
    msg: Seq<char>,
    p: Seq<u8>,
    m: Seq<u8>,
    s: DoubleRatchetSession,
    blob: Vec<u8>,
    k: Option<Vec<u8>>,
)
    requires
        p.len() == pad_len(encode_utf8(msg).len()),
        m.len() == 32,
        relay_prepared(session, is_self, recipient_fp, recipient_nid, our_fp, ek, msg, p, m, s@, blob@, bytes_view(k)),
    ensures
        relay_outcome(session, is_self, recipient_fp, recipient_nid, our_fp, ek, msg, Ok((s, blob, k))),
{
    let r: Result<(DoubleRatchetSession, Vec<u8>, Option<Vec<u8>>), CryptoError> = Ok((s, blob, k));
    assert(r->Ok_0.0 == s && r->Ok_0.1 == blob && r->Ok_0.2 == k);
    assert(relay_prepared(session, is_self, recipient_fp, recipient_nid, our_fp, ek, msg, p, m, r->Ok_0.0@, r->Ok_0.1@, bytes_view(r->Ok_0.2)));
}

/// Prepare a message for the relay: the session after sending, the
/// ciphertext, and, for a new session with a peer, the KEM ciphertext.
pub fn prepare_relay_message(
    session: Option<DoubleRatchetSession>,
    is_self: bool,
    recipient_fp: &str,
    recipient_nid: &str,
    our_fp: &str,
    recipient_kyber: &MlKem1024EncapsulationKey,
    message: &str,
) -> (r: Result<(DoubleRatchetSession, Vec<u8>, Option<Vec<u8>>), CryptoError>)
    requires
        message.spec_bytes().len() <= 65535,
        session matches Some(s) ==> s@.send_n < u64::MAX,
    ensures
        relay_outcome(
            session_view(session),
            is_self,
            recipient_fp@,
            recipient_nid@,
            our_fp@,
            recipient_kyber@,
            message@,
            r,
        ),
{
    let ghost old_model: Option<RatchetModel> = session_view(session);
    let padded_text = pad_message_bucket(message);
    let ghost p = choose|p: Seq<u8>|
        p.len() == pad_len(message.spec_bytes().len()) && padded_text@ == hex_lower(
            #[trigger] padded(message.spec_bytes(), p),
        );
    let pt = padded_text.as_str();
    assert(pt.spec_bytes() == padded_text_bytes(message@, p));
    assert(pt.spec_bytes().len() <= crate::primitives::aes_gcm_max_len()) by {
        crate::kyber::lemma_hex_text_bytes(padded(message.spec_bytes(), p));
        crate::delivery_tokens::lemma_hex_lower_len(padded(message.spec_bytes(), p));
    }
    if is_self {
        match session {
            Some(s0) => {
                let mut s = s0;
                let empty: [u8; 0] = [];
                let blob = match s.encrypt_first(pt, &empty, &empty) {
                    Ok(b) => b,
                    Err(e) => return Err(e),
                };
                let ghost m = Seq::new(32, |i: int| 0u8);
                proof {
                    lemma_relay_outcome(old_model, is_self, recipient_fp@, recipient_nid@, our_fp@, recipient_kyber@, message@, p, m, s, blob, None);
                }
                return Ok((s, blob, None));
            },
            None => {
                let (ct, ss) = match MlKem1024Keypair::encapsulate(recipient_kyber) {
                    Ok(x) => x,
                    Err(e) => return Err(e),
                };
                let ghost m = choose|m: Seq<u8>| m.len() == 32 && #[trigger] mlkem1024_encaps(recipient_kyber@, m) == (ct@, ss@);
                let mut s = match DoubleRatchetSession::new_self(recipient_fp, recipient_nid, our_fp, ss.as_slice()) {
                    Ok(x) => x,
                    Err(e) => return Err(e),
                };
                let empty: [u8; 0] = [];
                let blob = match s.encrypt_first(pt, &empty, &empty) {
                    Ok(b) => b,
                    Err(e) => return Err(e),
                };
                proof {
                    lemma_relay_outcome(old_model, is_self, recipient_fp@, recipient_nid@, our_fp@, recipient_kyber@, message@, p, m, s, blob, None);
                }
                return Ok((s, blob, None));
            },
        }
    } else {
        match session {
            Some(s0) => {
                let mut s = s0;
                let blob = match s.encrypt_message(pt, recipient_kyber) {
                    Ok(b) => b,
                    Err(e) => return Err(e),
                };
                let ghost m = choose|m: Seq<u8>|
                    m.len() == 32 && #[trigger] crate::ratchet::kyber_send_outcome(
                        old_model.unwrap(),
                        s@,
                        recipient_kyber@,
                        pt.spec_bytes(),
                        m,
                        Ok::<Vec<u8>, CryptoError>(blob),
                    );
                proof {
                    lemma_relay_outcome(old_model, is_self, recipient_fp@, recipient_nid@, our_fp@, recipient_kyber@, message@, p, m, s, blob, None);
                }
                return Ok((s, blob, None));
            },
            None => {
                let (ct, ss) = match MlKem1024Keypair::encapsulate(recipient_kyber) {
                    Ok(x) => x,
                    Err(e) => return Err(e),
                };
                let ghost m = choose|m: Seq<u8>| m.len() == 32 && #[trigger] mlkem1024_encaps(recipient_kyber@, m) == (ct@, ss@);
                let mut s = match DoubleRatchetSession::new(recipient_fp, recipient_nid, our_fp, true, ss.as_slice()) {
                    Ok(x) => x,
                    Err(e) => return Err(e),
                };
                let blob = match s.encrypt_first(pt, ct.as_slice(), ss.as_slice()) {
                    Ok(b) => b,
                    Err(e) => return Err(e),
                };
                proof {
                    lemma_relay_outcome(old_model, is_self, recipient_fp@, recipient_nid@, our_fp@, recipient_kyber@, message@, p, m, s, blob, Some(ct));
                }
                return Ok((s, blob, Some(ct)));
            },
        }
    }
}

/// A direct (P2P) message ready to go out.
pub struct P2pOutgoing {
    /// The new initiator session, after the message.
    pub session: DoubleRatchetSession,
    /// The KEM ciphertext the responder decapsulates to start its session.
    pub init_kyber_ct: Vec<u8>,
    /// The encrypted message.
    pub ciphertext: Vec<u8>,
    /// The hex SHA-256 of the encrypted message.
    pub msg_hash: String,
    /// The message's sequence number.
    pub seq: u64,
}

/// What preparing a direct message does, for padding `p` and encapsulation
/// randomness `m1` (the session) and `m2` (the message): a new initiator
/// session with the recipient on the secret of a fresh encapsulation, whose
/// ciphertext is shipped, then a Kyber-mixed encryption of the padded text.
pub open spec fn p2p_prepared(
    recipient_fp: Seq<char>,
    our_fp: Seq<char>,
    ek: Seq<u8>,
    msg: Seq<char>,
    p: Seq<u8>,
    m1: Seq<u8>,
    m2: Seq<u8>,
    out: P2pOutgoing,
) -> bool {
    let (kct, ss) = mlkem1024_encaps(ek, m1);
    let start = initial_model(recipient_fp, null_id_of(encode_utf8(recipient_fp)), our_fp, true, false, ss);
    &&& out.init_kyber_ct@ == kct
    &&& kyber_sent(start, out.session@, ek, padded_text_bytes(msg, p), m2, out.ciphertext@)
    &&& out.msg_hash@ == hex_lower(sha256(out.ciphertext@))
    &&& out.seq == 1
}

/// The outcome of preparing a direct message: it succeeds, and some
/// padding and encapsulation randomness explain what it gives (see
/// `p2p_prepared`).
pub open spec fn p2p_outcome(
    recipient_fp: Seq<char>,
    our_fp: Seq<char>,
    ek: Seq<u8>,
    msg: Seq<char>,
    r: Result<P2pOutgoing, CryptoError>,
) -> bool {
    &&& r is Ok
    &&& exists|p: Seq<u8>, m1: Seq<u8>, m2: Seq<u8>|
        p.len() == pad_len(encode_utf8(msg).len()) && m1.len() == 32 && m2.len() == 32
            && #[trigger] p2p_prepared(recipient_fp, our_fp, ek, msg, p, m1, m2, r->Ok_0)
}

proof fn lemma_p2p_outcome(
    recipient_fp: Seq<char>,
    our_fp: Seq<char>,
    ek: Seq<u8>,
    msg: Seq<char>,
    p: Seq<u8>,
    m1: Seq<u8>,
    m2: Seq<u8>,
    out: P2pOutgoing,
)
    requires
        p.len() == pad_len(encode_utf8(msg).len()),
        m1.len() == 32,
        m2.len() == 32,
        p2p_prepared(recipient_fp, our_fp, ek, msg, p, m1, m2, out),
    ensures
        p2p_outcome(recipient_fp, our_fp, ek, msg, Ok(out)),
{
    let r: Result<P2pOutgoing, CryptoError> = Ok(out);
    assert(r->Ok_0 == out);
    assert(p2p_prepared(recipient_fp, our_fp, ek, msg, p, m1, m2, r->Ok_0));
}

/// Prepare a direct message to `recipient_fp` over the peer's
/// authenticated ML-KEM key.
pub fn prepare_p2p_message(
    recipient_fp: &str,
    our_fp: &str,
    peer_kyber: &MlKem1024EncapsulationKey,
    message: &str,
) -> (r: Result<P2pOutgoing, CryptoError>)
    requires
        message.spec_bytes().len() <= 65535,
    ensures
        p2p_outcome(recipient_fp@, our_fp@, peer_kyber@, message@, r),
{
    let (init_ct, ss) = match MlKem1024Keypair::encapsulate(peer_kyber) {
        Ok(x) => x,
        Err(e) => return Err(e),
    };
    let ghost m1 = choose|m: Seq<u8>| m.len() == 32 && #[trigger] mlkem1024_encaps(peer_kyber@, m) == (init_ct@, ss@);
    let peer_nid = null_id(recipient_fp);
    let mut session = match DoubleRatchetSession::new(recipient_fp, peer_nid.as_str(), our_fp, true, ss.as_slice()) {
        Ok(x) => x,
        Err(e) => return Err(e),
    };
    let ghost start = session@;
    let padded_text = pad_message_bucket(message);
    let ghost p = choose|p: Seq<u8>|
        p.len() == pad_len(message.spec_bytes().len()) && padded_text@ == hex_lower(
            #[trigger] padded(message.spec_bytes(), p),
        );
    let pt = padded_text.as_str();
    assert(pt.spec_bytes() == padded_text_bytes(message@, p));
    assert(pt.spec_bytes().len() <= crate::primitives::aes_gcm_max_len()) by {
        crate::kyber::lemma_hex_text_bytes(padded(message.spec_bytes(), p));
        crate::delivery_tokens::lemma_hex_lower_len(padded(message.spec_bytes(), p));
    }
    let ciphertext = match session.encrypt_message(pt, peer_kyber) {
        Ok(b) => b,
        Err(e) => return Err(e),
    };
    let ghost m2 = choose|m: Seq<u8>|
        m.len() == 32 && #[trigger] crate::ratchet::kyber_send_outcome(
            start,
            session@,
            peer_kyber@,
            pt.spec_bytes(),
            m,
            Ok::<Vec<u8>, CryptoError>(ciphertext),
        );
    let msg_hash = sha256_hex(ciphertext.as_slice());
    let out = P2pOutgoing { session, init_kyber_ct: init_ct, ciphertext, msg_hash, seq: 1 };
    proof {
        lemma_p2p_outcome(recipient_fp@, our_fp@, peer_kyber@, message@, p, m1, m2, out);
    }
    Ok(out)
}

/// One layer of an onion message, for encapsulation randomness `m1` (a new
/// session) and `m2` (the message): a Kyber-mixed encryption of `pt` on the
/// stored session for `label`, or else on a new initiator session with
/// ourselves under that label, on the secret of a fresh encapsulation to the
/// relay's key.
pub open spec fn onion_layered(
    stored: Option<RatchetModel>,
    our_fp: Seq<char>,
    label: Seq<char>,
    ek: Seq<u8>,
    pt: Seq<u8>,
    m1: Seq<u8>,
    m2: Seq<u8>,
    new: RatchetModel,
    blob: Seq<u8>,
) -> bool {
    let start = match stored {
        Some(s) => s,
        None => initial_model(our_fp, label, our_fp, true, false, mlkem1024_encaps(ek, m1).1),
    };
    kyber_sent(start, new, ek, pt, m2, blob)
}

/// The outcome of an onion layer: on success, some encapsulation
/// randomness explains the session and ciphertext (see `onion_layered`).
pub open spec fn onion_outcome(
    stored: Option<RatchetModel>,
    our_fp: Seq<char>,
    label: Seq<char>,
    ek: Seq<u8>,
    pt: Seq<u8>,
    r: Result<(DoubleRatchetSession, Vec<u8>), CryptoError>,
) -> bool {
    r is Ok ==> exists|m1: Seq<u8>, m2: Seq<u8>|
        m1.len() == 32 && m2.len() == 32 && #[trigger] onion_layered(
            stored,
            our_fp,
            label,
            ek,
            pt,
            m1,
            m2,
            r->Ok_0.0@,
            r->Ok_0.1@,
        )
}

proof fn lemma_onion_outcome(
    stored: Option<RatchetModel>,
    our_fp: Seq<char>,
    label: Seq<char>,
    ek: Seq<u8>,
    pt: Seq<u8>,
    m1: Seq<u8>,
    m2: Seq<u8>,
    s: DoubleRatchetSession,
    blob: Vec<u8>,
)
    requires
        m1.len() == 32,
        m2.len() == 32,
        onion_layered(stored, our_fp, label, ek, pt, m1, m2, s@, blob@),
    ensures
        onion_outcome(stored, our_fp, label, ek, pt, Ok((s, blob))),
{
    let r: Result<(DoubleRatchetSession, Vec<u8>), CryptoError> = Ok((s, blob));
    assert(r->Ok_0.0 == s && r->Ok_0.1 == blob);
    assert(onion_layered(stored, our_fp, label, ek, pt, m1, m2, r->Ok_0.0@, r->Ok_0.1@));
}

/// Wrap `plaintext` in one onion layer for a relay: the session for `label`
/// (`__onion_exit__` or `__onion_entry__`) is the stored one or a new one,
/// and the layer is a Kyber-mixed ratchet encryption to the relay's key.
pub fn onion_layer(
    stored: Option<DoubleRatchetSession>,
    our_fp: &str,
    label: &str,
    relay_kyber: &MlKem1024EncapsulationKey,
    plaintext: &str,
) -> (r: Result<(DoubleRatchetSession, Vec<u8>), CryptoError>)
    requires
        stored matches Some(s) ==> s@.send_n < u64::MAX,
    ensures
        onion_outcome(session_view(stored), our_fp@, label@, relay_kyber@, plaintext.spec_bytes(), r),
        plaintext.spec_bytes().len() <= crate::primitives::aes_gcm_max_len() ==> r is Ok,
{
    let ghost sv = session_view(stored);
    let ghost mut m1: Seq<u8> = Seq::new(32, |i: int| 0u8);
    let mut session = match stored {
        Some(s) => s,
        None => {
            let (ct, ss) = match MlKem1024Keypair::encapsulate(relay_kyber) {
                Ok(x) => x,
                Err(e) => return Err(e),
            };
            proof {
                m1 = choose|m: Seq<u8>| m.len() == 32 && #[trigger] mlkem1024_encaps(relay_kyber@, m) == (ct@, ss@);
            }
            match DoubleRatchetSession::new(our_fp, label, our_fp, true, ss.as_slice()) {
                Ok(x) => x,
                Err(e) => return Err(e),
            }
        },
    };
    let ghost start = session@;
    let blob = match session.encrypt_message(plaintext, relay_kyber) {
        Ok(b) => b,
        Err(e) => return Err(e),
    };
    let ghost m2 = choose|m: Seq<u8>|
        m.len() == 32 && #[trigger] crate::ratchet::kyber_send_outcome(
            start,
            session@,
            relay_kyber@,
            plaintext.spec_bytes(),
            m,
            Ok::<Vec<u8>, CryptoError>(blob),
        );
    proof {
        lemma_onion_outcome(sv, our_fp@, label@, relay_kyber@, plaintext.spec_bytes(), m1, m2, session, blob);
    }
    Ok((session, blob))
}

/// Why a relayed message could not be opened.
#[derive(Debug, Clone, PartialEq, Eq)]
pub enum RelayOpenError {
    /// A message to ourselves, but no self session is stored.
    NoSelfSession,
    /// `kyber_ciphertext` is not hex.
    KyberCtDecode,
    /// `kyber_ciphertext` is not an ML-KEM-1024 ciphertext.
    KyberCtParse,
    /// Neither a KEM ciphertext nor a stored session for the sender.
    NoSession,
    /// The ratchet refused the message.
    Decrypt(CryptoError),
    /// The decrypted text is not a padded message.
    Unpad(PadError),
}

/// The session a relayed message is opened on: the stored self session for
/// a message to ourselves; a fresh responder session on the decapsulated
/// KEM ciphertext for a first message; else the stored session.
pub open spec fn relay_open_session(
    stored: Option<RatchetModel>,
    nid: Seq<char>,
    sender_fp: Seq<char>,
    our_fp: Seq<char>,
    dec: Seq<u8>,
    kyber_ct_hex: Option<Seq<char>>,
) -> Result<RatchetModel, RelayOpenError> {
    if nid == null_id_of(encode_utf8(our_fp)) {
        match stored {
            Some(m) => Ok(m),
            None => Err(RelayOpenError::NoSelfSession),
        }
    } else {
        match kyber_ct_hex {
            Some(h) => match hex_decoded(encode_utf8(h)) {
                None => Err(RelayOpenError::KyberCtDecode),
                Some(ct) => if ct.len() != MLKEM1024_CT_LEN {
                    Err(RelayOpenError::KyberCtParse)
                } else {
                    Ok(initial_model(sender_fp, nid, our_fp, false, false, mlkem1024_decaps(dec, ct)))
                },
            },
            None => match stored {
                Some(m) => Ok(m),
                None => Err(RelayOpenError::NoSession),
            },
        }
    }
}

/// The text a decryption outcome gives, when it is valid UTF-8.
pub open spec fn decrypted_text(out: Option<Seq<u8>>) -> Option<Seq<char>> {
    match out {
        Some(pt) => if valid_utf8(pt) {
            Some(decode_utf8(pt))
        } else {
            None
        },
        None => None,
    }
}

/// Decrypting a relayed blob on session `m`: a first message (one that
/// carried a KEM ciphertext) as message 0 on the linear chain, any other
/// as message `seq`.  The session after it and the text, `None` when the
/// ratchet refuses the blob.
pub open spec fn relay_decrypt(m: RatchetModel, first: bool, ciphertext_b64: Seq<char>, seq: u64, dec: Seq<u8>) -> (
    RatchetModel,
    Option<Seq<char>>,
) {
    match base64_std_decode(ciphertext_b64) {
        None => (m, None),
        Some(raw) => if first {
            if raw.len() < NONCE_SIZE + 16 {
                (m, None)
            } else {
                let (m2, out) = simple_decrypt_model(
                    m,
                    raw.subrange(0, NONCE_SIZE as int),
                    raw.subrange(NONCE_SIZE as int, raw.len() as int),
                    0,
                );
                (m2, decrypted_text(out))
            }
        } else {
            let (m2, out) = decrypt_model(m, raw, seq, dec);
            (m2, decrypted_text(out))
        },
    }
}

/// What opening a relayed message gives: the session it was decrypted on,
/// advanced, and the text with its padding removed.
pub open spec fn relay_opened(
    stored: Option<RatchetModel>,
    nid: Seq<char>,
    sender_fp: Seq<char>,
    our_fp: Seq<char>,
    dec: Seq<u8>,
    kyber_ct_hex: Option<Seq<char>>,
    ciphertext_b64: Seq<char>,
    seq: u64,
    r: Result<(DoubleRatchetSession, String), RelayOpenError>,
) -> bool {
    match relay_open_session(stored, nid, sender_fp, our_fp, dec, kyber_ct_hex) {
        Err(e) => r == Err::<(DoubleRatchetSession, String), RelayOpenError>(e),
        Ok(m0) => {
            let (m1, text) = relay_decrypt(m0, kyber_ct_hex is Some, ciphertext_b64, seq, dec);
            match text {
                None => r matches Err(RelayOpenError::Decrypt(CryptoError::DecryptFailed(_))),
                Some(t) => match unpad_outcome(t) {
                    Err(pe) => r == Err::<(DoubleRatchetSession, String), RelayOpenError>(RelayOpenError::Unpad(pe)),
                    Ok(msg) => r matches Ok((s, out)) && s@ == m1 && out@ == msg,
                },
            }
        },
    }
}

/// Open a relayed message from sender `nid` (see `relay_sender_identity`)
/// with our ML-KEM key; `stored` is the session stored for `nid`, which the
/// caller replaces with the one returned.
pub fn open_relay_message(
    stored: Option<DoubleRatchetSession>,
    nid: &str,
    sender_fp: &str,
    our_fp: &str,
    our_kyber: &MlKem1024Keypair,
    kyber_ct_hex: Option<&str>,
    ciphertext_b64: &str,
    seq: u64,
) -> (r: Result<(DoubleRatchetSession, String), RelayOpenError>)
    requires
        stored matches Some(s) ==> model_wf(s@) && s@.recv_n < u64::MAX,
        seq < u64::MAX,
    ensures
        relay_opened(
            session_view(stored),
            nid@,
            sender_fp@,
            our_fp@,
            our_kyber.dec@,
            match kyber_ct_hex {
                Some(h) => Some(h@),
                None => None,
            },
            ciphertext_b64@,
            seq,
            r,
        ),
{
    let ghost kv: Option<Seq<char>> = match kyber_ct_hex {
        Some(h) => Some(h@),
        None => None,
    };
    let is_self = str_eq(nid, null_id(our_fp).as_str());
    let mut session = if is_self {
        match stored {
            Some(s) => s,
            None => return Err(RelayOpenError::NoSelfSession),
        }
    } else {
        match kyber_ct_hex {
            Some(h) => {
                let ct = match hex_decode(h) {
                    Some(c) => c,
                    None => return Err(RelayOpenError::KyberCtDecode),
                };
                if ct.len() != MLKEM1024_CT_LEN {
                    return Err(RelayOpenError::KyberCtParse);
                }
                let ss = our_kyber.dec.decapsulate(ct.as_slice());
                match DoubleRatchetSession::new(sender_fp, nid, our_fp, false, ss.as_slice()) {
                    Ok(s) => s,
                    Err(e) => return Err(RelayOpenError::Decrypt(e)),
                }
            },
            None => match stored {
                Some(s) => s,
                None => return Err(RelayOpenError::NoSession),
            },
        }
    };
    assert(relay_open_session(session_view(stored), nid@, sender_fp@, our_fp@, our_kyber.dec@, kv) == Ok::<
        RatchetModel,
        RelayOpenError,
    >(session@));
    let padded = match kyber_ct_hex {
        Some(_) => session.decrypt_first(ciphertext_b64, our_kyber),
        None => session.decrypt_message(ciphertext_b64, our_kyber, seq),
    };
    let padded = match padded {
        Ok(p) => p,
        Err(e) => return Err(RelayOpenError::Decrypt(e)),
    };
    match unpad_message_bucket(padded.as_str()) {
        Ok(t) => Ok((session, t)),
        Err(e) => Err(RelayOpenError::Unpad(e)),
    }
}

/// A first relayed message reaches its reader: the recipient, opening the
/// relayed blob with the hex of the KEM ciphertext that came with it,
/// starts the matching session and gets the message back, as long as
/// decapsulation with its key recovers the encapsulated secret.  (The
/// sender's Null ID is not the recipient's own; the blob and KEM ciphertext
/// travel as base64 and hex; the padding is shorter than 256 bytes, the most
/// its header byte can announce.)
pub proof fn law_relay_first_message_opens(
    recipient_fp: Seq<char>,
    recipient_nid: Seq<char>,
    sender_fp: Seq<char>,
    sender_nid: Seq<char>,
    ek: Seq<u8>,
    dec: Seq<u8>,
    msg: Seq<char>,
    p: Seq<u8>,
    m: Seq<u8>,
    new: RatchetModel,
    blob: Seq<u8>,
    ciphertext_b64: Seq<char>,
    kyber_ct_hex: Seq<char>,
    r: Result<(DoubleRatchetSession, String), RelayOpenError>,
)
    requires
        encode_utf8(msg).len() <= 65535,
        p.len() == pad_len(encode_utf8(msg).len()),
        p.len() < 256,
        relay_prepared(None, false, recipient_fp, recipient_nid, sender_fp, ek, msg, p, m, new, blob, Some(mlkem1024_encaps(ek, m).0)),
        mlkem1024_decaps(dec, mlkem1024_encaps(ek, m).0) == mlkem1024_encaps(ek, m).1,
        base64_std_decode(ciphertext_b64) == Some(blob),
        hex_decoded(encode_utf8(kyber_ct_hex)) == Some(mlkem1024_encaps(ek, m).0),
        sender_nid != null_id_of(encode_utf8(recipient_fp)),
        relay_opened(None, sender_nid, sender_fp, recipient_fp, dec, Some(kyber_ct_hex), ciphertext_b64, 0, r),
    ensures
        r matches Ok((_, text)) && text@ == msg,
{
    let (kct, ss) = mlkem1024_encaps(ek, m);
    let start = initial_model(recipient_fp, recipient_nid, sender_fp, true, false, ss);
    let b = initial_model(sender_fp, sender_nid, recipient_fp, false, false, ss);
    crate::ratchet_laws::law_initial_chains_agree(recipient_fp, recipient_nid, sender_fp, sender_fp, sender_nid, recipient_fp, ss);
    assert(relay_open_session(None, sender_nid, sender_fp, recipient_fp, dec, Some(kyber_ct_hex)) == Ok::<
        RatchetModel,
        RelayOpenError,
    >(b));
    let pt = padded_text_bytes(msg, p);
    let nonce = blob.subrange(0, NONCE_SIZE as int);
    let body = blob.subrange(NONCE_SIZE as int, blob.len() as int);
    assert(crate::ratchet::skip_forward(b, 0) == b);
    assert(simple_decrypt_model(b, nonce, body, 0).1 == Some(pt));
    let h = hex_lower(padded(encode_utf8(msg), p));
    vstd::utf8::encode_utf8_valid_utf8(h);
    vstd::utf8::encode_utf8_decode_utf8(h);
    crate::messaging::law_pad_unpad_roundtrip(msg, p);
    assert(relay_decrypt(b, true, ciphertext_b64, 0, dec).1 == Some(h));
}

} // verus!
