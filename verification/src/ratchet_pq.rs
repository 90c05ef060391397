//! The post-quantum KEM ratchet: its two-state machine, the chain state it
//! starts from, and the wire format of a ratchet message.
use vstd::prelude::*;
use vstd::slice::slice_to_vec;
use vstd::string::StringSliceAdditionalSpecFns;
use vstd::utf8::{decode_utf8, encode_utf8, valid_utf8};
use crate::codec::{be_to_u64, be_u64, lemma_u64_be_roundtrip, u64_be, u64_to_be};
use crate::error::PqError;
use crate::hybrid_kem::{COMBINED_CT_SIZE, HybridCiphertext, MLKEM768_CT_SIZE, MLKEM768_PK_SIZE};
use crate::primitives::string_from_utf8;

verus! {

/// Where a party stands in the KEM ping-pong.
#[derive(Debug, Clone, Copy, PartialEq, Eq, Structural)]
pub enum RatchetState {
    AwaitingKemResponse,
    AwaitingKemRequest,
}

impl RatchetState {
    /// The state's display name.
    pub fn to_string(&self) -> (r: String)
        ensures
            r@ == (match self {
                RatchetState::AwaitingKemResponse => "AWAITING_KEM_RESPONSE"@,
                RatchetState::AwaitingKemRequest => "AWAITING_KEM_REQUEST"@,
            }),
    {
        match self {
            RatchetState::AwaitingKemResponse => "AWAITING_KEM_RESPONSE".to_string(),
            RatchetState::AwaitingKemRequest => "AWAITING_KEM_REQUEST".to_string(),
        }
    }
}

/// Root and chain keys with their message counters.
#[derive(Clone)]
pub struct RatchetStateBase {
    pub root_key: [u8; 32],
    pub send_chain_key: [u8; 32],
    pub recv_chain_key: [u8; 32],
    pub send_message_counter: u64,
    pub recv_message_counter: u64,
    pub is_initiator: bool,
}

/// A KEM ratchet message.
#[derive(Clone)]
pub struct KemRatchetMessage {
    pub version: String,
    pub x25519_pk: [u8; 32],
    pub mlkem_enc_key: Vec<u8>,
    pub hybrid_ct: Option<HybridCiphertext>,
    pub seq: u64,
    pub epoch: u64,
}

/// A ratchet message as plain values.
pub struct KemMsgModel {
    pub version: Seq<char>,
    pub x25519_pk: Seq<u8>,
    pub mlkem_enc_key: Seq<u8>,
    pub hybrid_ct: Option<(Seq<u8>, Seq<u8>)>,
    pub seq: u64,
    pub epoch: u64,
}

impl View for KemRatchetMessage {
    type V = KemMsgModel;

    open spec fn view(&self) -> KemMsgModel {
        KemMsgModel {
            version: self.version@,
            x25519_pk: self.x25519_pk@,
            mlkem_enc_key: self.mlkem_enc_key@,
            hybrid_ct: match self.hybrid_ct {
                Some(c) => Some((c.x25519_ct@, c.mlkem_ct@)),
                None => None,
            },
            seq: self.seq,
            epoch: self.epoch,
        }
    }
}

/// The wire form: the version's byte length as one byte, the version, the
/// X25519 key, the ML-KEM key, the hybrid ciphertext if any, then `seq` and
/// `epoch` as 8 big-endian bytes each.
pub open spec fn kem_msg_wire(m: KemMsgModel) -> Seq<u8> {
    let vb = encode_utf8(m.version);
    seq![vb.len() as u8] + vb + m.x25519_pk + m.mlkem_enc_key + match m.hybrid_ct {
        Some((x, c)) => x + c,
        None => Seq::empty(),
    } + u64_be(m.seq) + u64_be(m.epoch)
}

/// Offset of the X25519 key in a wire message.
pub open spec fn wire_key_offset(wire: Seq<u8>) -> int {
    1 + wire[0] as int
}

/// Whether a wire message carries a hybrid ciphertext.
pub open spec fn wire_has_ct(wire: Seq<u8>) -> bool {
    wire.len() - (wire_key_offset(wire) + 32 + 1184) >= COMBINED_CT_SIZE
}

/// Offset of the sequence number in a wire message.
pub open spec fn wire_seq_offset(wire: Seq<u8>) -> int {
    wire_key_offset(wire) + 32 + 1184 + if wire_has_ct(wire) { COMBINED_CT_SIZE as int } else { 0 }
}

/// The message a wire form parses to, `None` when it is refused.
pub open spec fn parse_kem_msg(wire: Seq<u8>) -> Option<KemMsgModel> {
    if wire.len() == 0 || wire_key_offset(wire) > wire.len() {
        None
    } else if !valid_utf8(wire.subrange(1, wire_key_offset(wire))) {
        None
    } else if wire_key_offset(wire) + 32 + 1184 > wire.len() || wire.len() - wire_seq_offset(wire) < 8 {
        None
    } else {
        let k = wire_key_offset(wire);
        let s = wire_seq_offset(wire);
        Some(
            KemMsgModel {
                version: decode_utf8(wire.subrange(1, k)),
                x25519_pk: wire.subrange(k, k + 32),
                mlkem_enc_key: wire.subrange(k + 32, k + 32 + 1184),
                hybrid_ct: if wire_has_ct(wire) {
                    Some((wire.subrange(k + 1216, k + 1248), wire.subrange(k + 1248, k + 1216 + 1120)))
                } else {
                    None
                },
                seq: be_u64(wire.subrange(s, s + 8)),
                epoch: if wire.len() - s - 8 >= 8 {
                    be_u64(wire.subrange(s + 8, s + 16))
                } else {
                    0
                },
            },
        )
    }
}

impl KemRatchetMessage {
    /// Encode the message.
    pub fn to_wire(&self) -> (wire: Vec<u8>)
        requires
            self.hybrid_ct matches Some(c) ==> c.mlkem_ct@.len() == MLKEM768_CT_SIZE,
        ensures
            wire@ == kem_msg_wire(self@),
    {
        let vb = self.version.as_str().as_bytes();
        let mut wire: Vec<u8> = Vec::new();
        wire.push(vb.len() as u8);
        let mut v = slice_to_vec(vb);
        wire.append(&mut v);
        let mut x = slice_to_vec(self.x25519_pk.as_slice());
        wire.append(&mut x);
        let mut k = self.mlkem_enc_key.clone();
        wire.append(&mut k);
        let ghost before_ct = wire@;
        match &self.hybrid_ct {
            Some(hct) => {
                let mut c = hct.to_bytes();
                wire.append(&mut c);
            },
            None => {},
        }
        let ghost ct_part = match self@.hybrid_ct {
            Some((x, c)) => x + c,
            None => Seq::<u8>::empty(),
        };
        assert(wire@ =~= before_ct + ct_part);
        let mut s = u64_to_be(self.seq);
        let mut e = u64_to_be(self.epoch);
        wire.append(&mut s);
        wire.append(&mut e);
        wire
    }

    /// Decode a wire message.  Refused, with the error the first failing
    /// check gives: an empty input, a version running past the end, a
    /// version that is not UTF-8, a missing X25519 or ML-KEM key, or fewer
    /// than 8 bytes for the sequence number.  A hybrid ciphertext is read
    /// when at least 1120 bytes follow the keys; a missing epoch reads as 0.
    pub fn from_wire(wire: &[u8]) -> (r: Result<Self, PqError>)
        ensures
            r is Ok <==> parse_kem_msg(wire@) is Some,
            r matches Ok(m) ==> parse_kem_msg(wire@) == Some(m@),
            wire@.len() == 0 ==> r == Err::<Self, PqError>(PqError::InvalidKeyLength { expected: 1, got: 0 }),
            wire@.len() > 0 && wire_key_offset(wire@) > wire@.len() ==> r == Err::<Self, PqError>(
                PqError::InvalidKeyLength { expected: wire@[0] as usize, got: (wire@.len() - 1) as usize },
            ),
            wire@.len() > 0 && wire_key_offset(wire@) <= wire@.len() && !valid_utf8(wire@.subrange(1, wire_key_offset(wire@)))
                ==> r matches Err(PqError::DecapsulationFailed(_)),
    {
        if wire.len() == 0 {
            return Err(PqError::InvalidKeyLength { expected: 1, got: 0 });
        }
        let vlen = wire[0] as usize;
        let mut offset: usize = 1;
        if offset + vlen > wire.len() {
            return Err(PqError::InvalidKeyLength { expected: vlen, got: wire.len() - offset });
        }
        let version = match string_from_utf8(slice_to_vec(&wire[offset..offset + vlen])) {
            Some(v) => v,
            None => return Err(PqError::DecapsulationFailed("version not UTF-8".to_string())),
        };
        offset = offset + vlen;
        if offset + 32 > wire.len() {
            return Err(PqError::InvalidKeyLength { expected: 32, got: wire.len() - offset });
        }
        let mut x = [0u8; 32];
        let sub = &wire[offset..offset + 32];
        for i in 0..32
            invariant
                sub@.len() == 32,
                forall|j: int| 0 <= j < i ==> x@[j] == sub@[j],
        {
            x[i] = sub[i];
        }
        assert(x@ =~= wire@.subrange(offset as int, offset + 32));
        offset = offset + 32;
        if offset + 1184 > wire.len() {
            return Err(PqError::InvalidKeyLength { expected: 1184, got: wire.len() - offset });
        }
        let mlkem_enc_key = slice_to_vec(&wire[offset..offset + 1184]);
        offset = offset + 1184;
        let hybrid_ct = if wire.len() - offset >= COMBINED_CT_SIZE {
            match HybridCiphertext::from_bytes(&wire[offset..offset + COMBINED_CT_SIZE]) {
                Ok(c) => Some(c),
                Err(e) => return Err(e),
            }
        } else {
            None
        };
        if hybrid_ct.is_some() {
            offset = offset + COMBINED_CT_SIZE;
        }
        let remaining = wire.len() - offset;
        if remaining < 8 {
            return Err(PqError::InvalidKeyLength { expected: 8, got: remaining });
        }
        let seq = be_to_u64(wire, offset);
        offset = offset + 8;
        let epoch = if wire.len() - offset >= 8 { be_to_u64(wire, offset) } else { 0 };
        let m = KemRatchetMessage { version, x25519_pk: x, mlkem_enc_key, hybrid_ct, seq, epoch };
        proof {
            let w = wire@;
            let k = wire_key_offset(w);
            assert(m@.version == decode_utf8(w.subrange(1, k)));
            match m@.hybrid_ct {
                Some((cx, cm)) => {
                    assert(cx =~= w.subrange(k + 1216, k + 1248));
                    assert(cm =~= w.subrange(k + 1248, k + 1216 + 1120));
                },
                None => {},
            }
            assert(m@ == parse_kem_msg(w).unwrap());
        }
        Ok(m)
    }
}

/// A message encodes to a wire form that decodes to the same message, when
/// its version takes at most 255 bytes and its keys and ciphertext have
/// their sizes.
pub proof fn law_kem_msg_wire_roundtrip(m: KemMsgModel)
    requires
        encode_utf8(m.version).len() <= 255,
        m.x25519_pk.len() == 32,
        m.mlkem_enc_key.len() == MLKEM768_PK_SIZE,
        m.hybrid_ct matches Some((x, c)) ==> x.len() == 32 && c.len() == MLKEM768_CT_SIZE,
    ensures
        parse_kem_msg(kem_msg_wire(m)) == Some(m),
{
    let w = kem_msg_wire(m);
    let vb = encode_utf8(m.version);
    let ct_part = match m.hybrid_ct {
        Some((x, c)) => x + c,
        None => Seq::<u8>::empty(),
    };
    let n: int = vb.len() as int;
    assert((n as u8) as int == n);
    assert(w[0] == n as u8);
    let k: int = 1 + n;
    assert(wire_key_offset(w) == k);
    assert(w.subrange(1, k) =~= vb);
    vstd::utf8::encode_utf8_valid_utf8(m.version);
    vstd::utf8::encode_utf8_decode_utf8(m.version);
    assert(w.subrange(k, k + 32) =~= m.x25519_pk);
    assert(w.subrange(k + 32, k + 32 + 1184) =~= m.mlkem_enc_key);
    lemma_u64_be_roundtrip(m.seq);
    lemma_u64_be_roundtrip(m.epoch);
    let s: int = k + 1216 + ct_part.len();
    assert(wire_has_ct(w) == m.hybrid_ct is Some);
    assert(wire_seq_offset(w) == s);
    assert(w.subrange(s, s + 8) =~= u64_be(m.seq));
    assert(w.subrange(s + 8, s + 16) =~= u64_be(m.epoch));
    match m.hybrid_ct {
        Some((x, c)) => {
            assert(w.subrange(k + 1216, k + 1248) =~= x);
            assert(w.subrange(k + 1248, k + 1216 + 1120) =~= c);
        },
        None => {},
    }
    assert(parse_kem_msg(w).unwrap() == m);
}

} // verus!
