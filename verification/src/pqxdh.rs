//! PQXDH: the session keys both parties derive from the two hybrid shared
//! secrets, and the wire form of a handshake.
use vstd::prelude::*;
use crate::codec::{to_array32, to_array12};
use vstd::slice::slice_to_vec;
use vstd::string::StringSliceAdditionalSpecFns;
use vstd::utf8::{decode_utf8, valid_utf8};
use crate::error::PqError;
use crate::kem_ratchet::is_all_zero;
use crate::hybrid_kem::{
    combine_shared_secrets, combined_secret, hybrid_decapsulate, hybrid_encaps_of, hybrid_encapsulate_with,
    mlkem768_encapsulate_to, HybridCiphertext, HybridKeypair, HybridSharedSecret, MlKem768EncapsulationKey,
    COMBINED_CT_SIZE, MLKEM768_CT_SIZE,
};
use crate::primitives::{
    hkdf_sha256, hkdf_sha256_expand, mlkem768_encaps, random_bytes, sha3_256, sha3_256_digest, string_from_utf8,
    x25519_diffie_hellman, x25519_public, x25519_public_of, x25519_shared,
};

verus! {

pub const NONCE_SIZE: usize = 32;
pub const SESSION_KEY_SIZE: usize = 32;
pub const IV_SIZE: usize = 12;

/// A PQXDH handshake as carried on the wire.
#[derive(Clone)]
pub struct PqxDhHandshake {
    pub version: String,
    pub init_ephemeral_x25519_pk: [u8; 32],
    pub resp_ephemeral_x25519_pk: [u8; 32],
    pub init_mlkem_enc_key: Vec<u8>,
    pub resp_mlkem_enc_key: Vec<u8>,
    pub init_hybrid_ct: HybridCiphertext,
    pub resp_hybrid_ct: HybridCiphertext,
}

/// The directional session keys and IVs.
#[derive(Clone)]
pub struct PqxDhSessionKeys {
    pub send_key: [u8; 32],
    pub recv_key: [u8; 32],
    pub send_iv: [u8; 12],
    pub recv_iv: [u8; 12],
}

/// The ratchet state a handshake starts.
#[derive(Clone)]
pub struct PqxDhRatchetState {
    pub root_key: [u8; 32],
    pub send_chain_key: [u8; 32],
    pub recv_chain_key: [u8; 32],
    pub send_message_counter: u64,
    pub recv_message_counter: u64,
    pub is_initiator: bool,
}

/// Lexicographic `a < b` on the bytes from index `i` on.
pub open spec fn lex_less_from(a: Seq<u8>, b: Seq<u8>, i: nat) -> bool
    decreases 32 - i,
{
    if i >= 32 {
        false
    } else if a[i as int] < b[i as int] {
        true
    } else if a[i as int] > b[i as int] {
        false
    } else {
        lex_less_from(a, b, i + 1)
    }
}

/// Lexicographic `a < b` on 32-byte strings.
pub open spec fn lex_less(a: Seq<u8>, b: Seq<u8>) -> bool {
    lex_less_from(a, b, 0)
}

/// The two shared secrets in a fixed order: the smaller one first.
pub open spec fn ordered_secrets(init_ss: Seq<u8>, resp_ss: Seq<u8>) -> Seq<u8> {
    if lex_less(resp_ss, init_ss) {
        resp_ss + init_ss
    } else {
        init_ss + resp_ss
    }
}

/// The 64-byte master secret.
pub open spec fn pqxdh_master(init_ss: Seq<u8>, resp_ss: Seq<u8>, nonce: Seq<u8>) -> Seq<u8> {
    hkdf_sha256(Some(nonce), ordered_secrets(init_ss, resp_ss), "add-pqxdh-master-v1".spec_bytes(), 64)
}

/// The initiator-to-responder key.
pub open spec fn forward_key(master: Seq<u8>, nonce: Seq<u8>) -> Seq<u8> {
    hkdf_sha256(Some(master), nonce.push(1u8), "add-pqxdh-send-v1".spec_bytes(), 32)
}

/// The responder-to-initiator key.
pub open spec fn backward_key(master: Seq<u8>, nonce: Seq<u8>) -> Seq<u8> {
    hkdf_sha256(Some(master), nonce.push(2u8), "add-pqxdh-recv-v1".spec_bytes(), 32)
}

/// The send and receive IVs.
pub open spec fn send_iv_of(master: Seq<u8>) -> Seq<u8> {
    hkdf_sha256(Some(master), "add-pqxdh-iv-send-v1".spec_bytes(), Seq::empty(), 12)
}

pub open spec fn recv_iv_of(master: Seq<u8>) -> Seq<u8> {
    hkdf_sha256(Some(master), "add-pqxdh-iv-recv-v1".spec_bytes(), Seq::empty(), 12)
}

/// The session keys of a party: (send key, receive key, send IV, receive IV).
pub open spec fn session_keys_model(init_ss: Seq<u8>, resp_ss: Seq<u8>, nonce: Seq<u8>, is_initiator: bool) -> (
    Seq<u8>,
    Seq<u8>,
    Seq<u8>,
    Seq<u8>,
) {
    let master = pqxdh_master(init_ss, resp_ss, nonce);
    let fwd = forward_key(master, nonce);
    let bwd = backward_key(master, nonce);
    (
        if is_initiator { fwd } else { bwd },
        if is_initiator { bwd } else { fwd },
        send_iv_of(master),
        recv_iv_of(master),
    )
}

/// Whether `resp` < `init` lexicographically.
fn secret_less(resp: &[u8; 32], init: &[u8; 32]) -> (r: bool)
    ensures
        r == lex_less(resp@, init@),
{
    let mut i: usize = 0;
    while i < 32
        invariant
            i <= 32,
            lex_less(resp@, init@) == lex_less_from(resp@, init@, i as nat),
        decreases 32 - i,
    {
        if resp[i] < init[i] {
            return true;
        }
        if resp[i] > init[i] {
            return false;
        }
        i = i + 1;
    }
    false
}

/// Derive the session keys from both hybrid shared secrets and the
/// handshake nonce: the initiator sends with the forward key and receives
/// with the backward key, the responder the other way round.
pub fn derive_session_keys(
    init_ss: &HybridSharedSecret,
    resp_ss: &HybridSharedSecret,
    nonce: &[u8; 32],
    is_initiator: bool,
) -> (r: Result<PqxDhSessionKeys, PqError>)
    ensures
        r matches Ok(k) && (k.send_key@, k.recv_key@, k.send_iv@, k.recv_iv@) == session_keys_model(
            init_ss@,
            resp_ss@,
            nonce@,
            is_initiator,
        ),
{
    let a = init_ss.as_bytes();
    let b = resp_ss.as_bytes();
    let mut combined: Vec<u8>;
    if secret_less(b, a) {
        combined = slice_to_vec(b.as_slice());
        let mut rest = slice_to_vec(a.as_slice());
        combined.append(&mut rest);
    } else {
        combined = slice_to_vec(a.as_slice());
        let mut rest = slice_to_vec(b.as_slice());
        combined.append(&mut rest);
    }
    let ikdf = match hkdf_sha256_expand(Some(nonce.as_slice()), combined.as_slice(), "add-pqxdh-master-v1".as_bytes(), 64) {
        Some(k) => k,
        None => return Err(PqError::DerivationFailed("master secret".to_string())),
    };
    let mut salt_initiator = slice_to_vec(nonce.as_slice());
    salt_initiator.push(1u8);
    let mut salt_responder = slice_to_vec(nonce.as_slice());
    salt_responder.push(2u8);
    let forward = match hkdf_sha256_expand(Some(ikdf.as_slice()), salt_initiator.as_slice(), "add-pqxdh-send-v1".as_bytes(), 32) {
        Some(k) => k,
        None => return Err(PqError::DerivationFailed("forward key".to_string())),
    };
    let backward = match hkdf_sha256_expand(Some(ikdf.as_slice()), salt_responder.as_slice(), "add-pqxdh-recv-v1".as_bytes(), 32) {
        Some(k) => k,
        None => return Err(PqError::DerivationFailed("backward key".to_string())),
    };
    let empty: Vec<u8> = Vec::new();
    let send_iv = match hkdf_sha256_expand(Some(ikdf.as_slice()), "add-pqxdh-iv-send-v1".as_bytes(), empty.as_slice(), 12) {
        Some(k) => k,
        None => return Err(PqError::DerivationFailed("send iv".to_string())),
    };
    let recv_iv = match hkdf_sha256_expand(Some(ikdf.as_slice()), "add-pqxdh-iv-recv-v1".as_bytes(), empty.as_slice(), 12) {
        Some(k) => k,
        None => return Err(PqError::DerivationFailed("recv iv".to_string())),
    };
    let (send_key, recv_key) = if is_initiator {
        (to_array32(forward.as_slice()), to_array32(backward.as_slice()))
    } else {
        (to_array32(backward.as_slice()), to_array32(forward.as_slice()))
    };
    Ok(PqxDhSessionKeys { send_key, recv_key, send_iv: to_array12(send_iv.as_slice()), recv_iv: to_array12(recv_iv.as_slice()) })
}

proof fn lemma_lex_trichotomy(a: Seq<u8>, b: Seq<u8>, i: nat)
    requires
        a.len() == 32,
        b.len() == 32,
        i <= 32,
    ensures
        lex_less_from(a, b, i) || lex_less_from(b, a, i) || a.subrange(i as int, 32) == b.subrange(i as int, 32),
        !(lex_less_from(a, b, i) && lex_less_from(b, a, i)),
    decreases 32 - i,
{
    if i < 32 {
        lemma_lex_trichotomy(a, b, i + 1);
        if a[i as int] == b[i as int] && a.subrange(i + 1int, 32) == b.subrange(i + 1int, 32) {
            assert(a.subrange(i as int, 32) =~= b.subrange(i as int, 32)) by {
                assert forall|j: int| 0 <= j < 32 - i implies a.subrange(i as int, 32)[j] == b.subrange(i as int, 32)[j] by {
                    if j > 0 {
                        assert(a.subrange(i as int, 32)[j] == a.subrange(i + 1int, 32)[j - 1]);
                        assert(b.subrange(i as int, 32)[j] == b.subrange(i + 1int, 32)[j - 1]);
                    }
                }
            }
        }
    } else {
        assert(a.subrange(32, 32) =~= b.subrange(32, 32));
    }
}

/// Both parties order the two shared secrets the same way whichever one
/// they hold as their own.
pub proof fn law_ordered_secrets_symmetric(x: Seq<u8>, y: Seq<u8>)
    requires
        x.len() == 32,
        y.len() == 32,
    ensures
        ordered_secrets(x, y) == ordered_secrets(y, x),
{
    lemma_lex_trichotomy(x, y, 0);
    if !lex_less(x, y) && !lex_less(y, x) {
        assert(x =~= x.subrange(0, 32));
        assert(y =~= y.subrange(0, 32));
    }
}

/// The two ends of a handshake agree: the initiator's send key is the
/// responder's receive key and the other way round, and both derive the
/// same IVs, whichever order each passes the two shared secrets in.
pub proof fn law_session_keys_agree(x: Seq<u8>, y: Seq<u8>, nonce: Seq<u8>)
    requires
        x.len() == 32,
        y.len() == 32,
    ensures
        ({
            let a = session_keys_model(x, y, nonce, true);
            let b = session_keys_model(y, x, nonce, false);
            &&& a.0 == b.1
            &&& a.1 == b.0
            &&& a.2 == b.2
            &&& a.3 == b.3
        }),
        ({
            let a = session_keys_model(x, y, nonce, true);
            let b = session_keys_model(x, y, nonce, false);
            a.0 == b.1 && a.1 == b.0
        }),
{
    law_ordered_secrets_symmetric(x, y);
}

/// A party's two directions never share a derivation: its send key and its
/// receive key are HKDF-SHA256 outputs under the same master secret but
/// with different salts, each salt being the handshake nonce followed by a
/// direction byte (1 from initiator to responder, 2 back), and different
/// info labels.  (Were both directions
/// derived from one salt and label, the party would send and receive with
/// one key.)
pub proof fn law_directions_use_separate_derivations(x: Seq<u8>, y: Seq<u8>, nonce: Seq<u8>, is_initiator: bool)
    ensures
        exists|salt_s: Seq<u8>, info_s: Seq<u8>, salt_r: Seq<u8>, info_r: Seq<u8>|
            #![trigger hkdf_sha256(Some(pqxdh_master(x, y, nonce)), salt_s, info_s, 32), hkdf_sha256(Some(pqxdh_master(x, y, nonce)), salt_r, info_r, 32)]
            session_keys_model(x, y, nonce, is_initiator).0 == hkdf_sha256(Some(pqxdh_master(x, y, nonce)), salt_s, info_s, 32)
                && session_keys_model(x, y, nonce, is_initiator).1 == hkdf_sha256(
                Some(pqxdh_master(x, y, nonce)),
                salt_r,
                info_r,
                32,
            ) && salt_s.len() == nonce.len() + 1 && salt_r.len() == nonce.len() + 1 && salt_s.subrange(
                0,
                nonce.len() as int,
            ) == nonce && salt_r.subrange(0, nonce.len() as int) == nonce && salt_s.last() == (if is_initiator {
                1u8
            } else {
                2u8
            }) && salt_r.last() == (if is_initiator {
                2u8
            } else {
                1u8
            }) && info_s != info_r,
{
    let m = pqxdh_master(x, y, nonce);
    let f_salt = nonce.push(1u8);
    let b_salt = nonce.push(2u8);
    let f_info = "add-pqxdh-send-v1".spec_bytes();
    let b_info = "add-pqxdh-recv-v1".spec_bytes();
    assert(f_salt.subrange(0, nonce.len() as int) =~= nonce);
    assert(b_salt.subrange(0, nonce.len() as int) =~= nonce);
    assert(f_info != b_info) by {
        reveal_strlit("add-pqxdh-send-v1");
        reveal_strlit("add-pqxdh-recv-v1");
        vstd::string::is_ascii_spec_bytes("add-pqxdh-send-v1");
        vstd::string::is_ascii_spec_bytes("add-pqxdh-recv-v1");
        assert(f_info[10] != b_info[10]);
    }
    if is_initiator {
        assert(session_keys_model(x, y, nonce, is_initiator).0 == hkdf_sha256(Some(m), f_salt, f_info, 32));
        assert(session_keys_model(x, y, nonce, is_initiator).1 == hkdf_sha256(Some(m), b_salt, b_info, 32));
    } else {
        assert(session_keys_model(x, y, nonce, is_initiator).0 == hkdf_sha256(Some(m), b_salt, b_info, 32));
        assert(session_keys_model(x, y, nonce, is_initiator).1 == hkdf_sha256(Some(m), f_salt, f_info, 32));
    }
}

/// The master secret binds both shared secrets and the nonce: it is
/// HKDF-SHA256 with the handshake nonce as salt over 64 bytes of key
/// material that hold both 32-byte shared secrets, one in each half, and
/// the two IVs come from it under different labels.
pub proof fn law_master_binds_both_secrets(x: Seq<u8>, y: Seq<u8>, nonce: Seq<u8>)
    requires
        x.len() == 32,
        y.len() == 32,
    ensures
        exists|ikm: Seq<u8>, info: Seq<u8>|
            #![trigger hkdf_sha256(Some(nonce), ikm, info, 64)]
            pqxdh_master(x, y, nonce) == hkdf_sha256(Some(nonce), ikm, info, 64) && ikm.len() == 64 && ((
            ikm.subrange(0, 32) == x && ikm.subrange(32, 64) == y) || (ikm.subrange(0, 32) == y && ikm.subrange(
                32,
                64,
            ) == x)),
        exists|salt_a: Seq<u8>, salt_b: Seq<u8>|
            #![trigger hkdf_sha256(Some(pqxdh_master(x, y, nonce)), salt_a, Seq::<u8>::empty(), 12), hkdf_sha256(Some(pqxdh_master(x, y, nonce)), salt_b, Seq::<u8>::empty(), 12)]
            session_keys_model(x, y, nonce, true).2 == hkdf_sha256(Some(pqxdh_master(x, y, nonce)), salt_a, Seq::<u8>::empty(), 12)
                && session_keys_model(x, y, nonce, true).3 == hkdf_sha256(
                Some(pqxdh_master(x, y, nonce)),
                salt_b,
                Seq::<u8>::empty(),
                12,
            ) && salt_a != salt_b,
{
    let ikm = ordered_secrets(x, y);
    if lex_less(y, x) {
        assert(ikm.subrange(0, 32) =~= y && ikm.subrange(32, 64) =~= x);
    } else {
        assert(ikm.subrange(0, 32) =~= x && ikm.subrange(32, 64) =~= y);
    }
    assert(pqxdh_master(x, y, nonce) == hkdf_sha256(Some(nonce), ikm, "add-pqxdh-master-v1".spec_bytes(), 64));
    let m = pqxdh_master(x, y, nonce);
    let sa = "add-pqxdh-iv-send-v1".spec_bytes();
    let sb = "add-pqxdh-iv-recv-v1".spec_bytes();
    assert(sa != sb) by {
        reveal_strlit("add-pqxdh-iv-send-v1");
        reveal_strlit("add-pqxdh-iv-recv-v1");
        vstd::string::is_ascii_spec_bytes("add-pqxdh-iv-send-v1");
        vstd::string::is_ascii_spec_bytes("add-pqxdh-iv-recv-v1");
        assert(sa[13] != sb[13]);
    }
    assert(session_keys_model(x, y, nonce, true).2 == hkdf_sha256(Some(m), sa, Seq::<u8>::empty(), 12));
    assert(session_keys_model(x, y, nonce, true).3 == hkdf_sha256(Some(m), sb, Seq::<u8>::empty(), 12));
}

/// Offset just past the version in a handshake wire form.
pub open spec fn hs_version_end(wire: Seq<u8>) -> int {
    1 + wire[0] as int
}

/// Parse a handshake.  Refused, with the error of the first failing check:
/// an empty input, a version running past the end, a version that is not
/// UTF-8, or a missing ephemeral key.  After the two ephemeral keys the wire
/// must hold both ML-KEM keys (1184 bytes each) and both hybrid ciphertexts
/// (1120 bytes each).
pub fn deserialize_handshake_from_wire(wire: &[u8]) -> (r: Result<PqxDhHandshake, PqError>)
    requires
        wire@.len() == 0 || hs_version_end(wire@) > wire@.len() || !valid_utf8(
            wire@.subrange(1, hs_version_end(wire@)),
        ) || hs_version_end(wire@) + 64 > wire@.len() || hs_version_end(wire@) + 64 + 2 * 1184 + 2
            * COMBINED_CT_SIZE <= wire@.len(),
    ensures
        wire@.len() == 0 ==> r == Err::<PqxDhHandshake, PqError>(PqError::InvalidKeyLength { expected: 1, got: 0 }),
        wire@.len() > 0 && hs_version_end(wire@) > wire@.len() ==> r == Err::<PqxDhHandshake, PqError>(
            PqError::InvalidKeyLength { expected: wire@[0] as usize, got: (wire@.len() - 1) as usize },
        ),
        wire@.len() > 0 && hs_version_end(wire@) <= wire@.len() ==> ({
            let v = hs_version_end(wire@);
            let w = wire@;
            if !valid_utf8(w.subrange(1, v)) {
                r matches Err(PqError::DecapsulationFailed(_))
            } else if v + 32 > w.len() {
                r == Err::<PqxDhHandshake, PqError>(PqError::InvalidKeyLength { expected: 32, got: (w.len() - v) as usize })
            } else if v + 64 > w.len() {
                r == Err::<PqxDhHandshake, PqError>(
                    PqError::InvalidKeyLength { expected: 32, got: (w.len() - v - 32) as usize },
                )
            } else {
                r matches Ok(h) && h.version@ == decode_utf8(w.subrange(1, v)) && h.init_ephemeral_x25519_pk@
                    == w.subrange(v, v + 32) && h.resp_ephemeral_x25519_pk@ == w.subrange(v + 32, v + 64)
                    && h.init_mlkem_enc_key@ == w.subrange(v + 64, v + 64 + 1184) && h.resp_mlkem_enc_key@
                    == w.subrange(v + 64 + 1184, v + 64 + 2368) && h.init_hybrid_ct.x25519_ct@ == w.subrange(
                    v + 2432,
                    v + 2464,
                ) && h.init_hybrid_ct.mlkem_ct@ == w.subrange(v + 2464, v + 3552) && h.resp_hybrid_ct.x25519_ct@
                    == w.subrange(v + 3552, v + 3584) && h.resp_hybrid_ct.mlkem_ct@ == w.subrange(v + 3584, v + 4672)
            }
        }),
{
    if wire.len() == 0 {
        return Err(PqError::InvalidKeyLength { expected: 1, got: 0 });
    }
    let version_len = wire[0] as usize;
    let mut offset: usize = 1;
    if offset + version_len > wire.len() {
        return Err(PqError::InvalidKeyLength { expected: version_len, got: wire.len() - offset });
    }
    let version = match string_from_utf8(slice_to_vec(&wire[offset..offset + version_len])) {
        Some(v) => v,
        None => return Err(PqError::DecapsulationFailed("version not UTF-8".to_string())),
    };
    offset = offset + version_len;
    if offset + 32 > wire.len() {
        return Err(PqError::InvalidKeyLength { expected: 32, got: wire.len() - offset });
    }
    let init_eph_pk = to_array32(&wire[offset..offset + 32]);
    offset = offset + 32;
    if offset + 32 > wire.len() {
        return Err(PqError::InvalidKeyLength { expected: 32, got: wire.len() - offset });
    }
    let resp_eph_pk = to_array32(&wire[offset..offset + 32]);
    offset = offset + 32;
    let init_mlkem_enc_key = slice_to_vec(&wire[offset..offset + 1184]);
    offset = offset + 1184;
    let resp_mlkem_enc_key = slice_to_vec(&wire[offset..offset + 1184]);
    offset = offset + 1184;
    let init_ct = match HybridCiphertext::from_bytes(&wire[offset..offset + COMBINED_CT_SIZE]) {
        Ok(c) => c,
        Err(e) => return Err(e),
    };
    offset = offset + COMBINED_CT_SIZE;
    let resp_ct = match HybridCiphertext::from_bytes(&wire[offset..offset + COMBINED_CT_SIZE]) {
        Ok(c) => c,
        Err(e) => return Err(e),
    };
    proof {
        let w = wire@;
        let v = hs_version_end(w);
        assert(init_ct.x25519_ct@ =~= w.subrange(v + 2432, v + 2464));
        assert(init_ct.mlkem_ct@ =~= w.subrange(v + 2464, v + 3552));
        assert(resp_ct.x25519_ct@ =~= w.subrange(v + 3552, v + 3584));
        assert(resp_ct.mlkem_ct@ =~= w.subrange(v + 3584, v + 4672));
    }
    Ok(
        PqxDhHandshake {
            version,
            init_ephemeral_x25519_pk: init_eph_pk,
            resp_ephemeral_x25519_pk: resp_eph_pk,
            init_mlkem_enc_key,
            resp_mlkem_enc_key,
            init_hybrid_ct: init_ct,
            resp_hybrid_ct: resp_ct,
        },
    )
}

/// The handshake protocol version.
pub open spec fn pqxdh_version() -> Seq<u8> {
    "add-pqxdh-v1".spec_bytes()
}

/// The wire form of a handshake: the version's length and bytes, both
/// ephemeral X25519 keys, two all-zero ML-KEM key slots of 1184 bytes, and
/// both hybrid ciphertexts.
pub open spec fn handshake_wire(init_pk: Seq<u8>, resp_pk: Seq<u8>, init_ct: Seq<u8>, resp_ct: Seq<u8>) -> Seq<u8> {
    seq![12u8] + pqxdh_version() + init_pk + resp_pk + Seq::new(2368, |i: int| 0u8) + init_ct + resp_ct
}

/// Serialize a handshake.  The ML-KEM key slots carry the all-zero key;
/// the two given keys are not written.
pub fn serialize_handshake_to_wire(
    init_eph_pk: &[u8; 32],
    resp_eph_pk: &[u8; 32],
    _init_mlkem_enc: &MlKem768EncapsulationKey,
    _resp_mlkem_enc: &MlKem768EncapsulationKey,
    init_ct: &HybridCiphertext,
    resp_ct: &HybridCiphertext,
) -> (wire: Vec<u8>)
    requires
        init_ct.mlkem_ct@.len() == MLKEM768_CT_SIZE,
        resp_ct.mlkem_ct@.len() == MLKEM768_CT_SIZE,
    ensures
        wire@ == handshake_wire(
            init_eph_pk@,
            resp_eph_pk@,
            init_ct.x25519_ct@ + init_ct.mlkem_ct@,
            resp_ct.x25519_ct@ + resp_ct.mlkem_ct@,
        ),
{
    let mut wire: Vec<u8> = Vec::new();
    wire.push(12u8);
    wire.extend_from_slice("add-pqxdh-v1".as_bytes());
    wire.extend_from_slice(init_eph_pk.as_slice());
    wire.extend_from_slice(resp_eph_pk.as_slice());
    let zeros: Vec<u8> = vec![0u8; 2368];
    wire.extend_from_slice(zeros.as_slice());
    let a = init_ct.to_bytes();
    let b = resp_ct.to_bytes();
    wire.extend_from_slice(a.as_slice());
    wire.extend_from_slice(b.as_slice());
    assert(zeros@ =~= Seq::new(2368, |i: int| 0u8));
    assert(wire@ =~= handshake_wire(init_eph_pk@, resp_eph_pk@, a@, b@));
    wire
}

/// A serialized handshake parses back: the version, both ephemeral keys,
/// the key slots and both ciphertexts sit where the parser reads them, and
/// the wire has exactly the parsed length.
pub proof fn law_handshake_wire_roundtrip(init_pk: Seq<u8>, resp_pk: Seq<u8>, init_ct: Seq<u8>, resp_ct: Seq<u8>)
    requires
        init_pk.len() == 32,
        resp_pk.len() == 32,
        init_ct.len() == COMBINED_CT_SIZE,
        resp_ct.len() == COMBINED_CT_SIZE,
    ensures
        ({
            let w = handshake_wire(init_pk, resp_pk, init_ct, resp_ct);
            let v = hs_version_end(w);
            &&& v == 13
            &&& w.len() == v + 64 + 2 * 1184 + 2 * COMBINED_CT_SIZE
            &&& valid_utf8(w.subrange(1, v))
            &&& decode_utf8(w.subrange(1, v)) == "add-pqxdh-v1"@
            &&& w.subrange(v, v + 32) == init_pk
            &&& w.subrange(v + 32, v + 64) == resp_pk
            &&& w.subrange(v + 2432, v + 3552) == init_ct
            &&& w.subrange(v + 3552, v + 4672) == resp_ct
        }),
{
    let w = handshake_wire(init_pk, resp_pk, init_ct, resp_ct);
    reveal_strlit("add-pqxdh-v1");
    vstd::utf8::encode_utf8_valid_utf8("add-pqxdh-v1"@);
    vstd::utf8::encode_utf8_decode_utf8("add-pqxdh-v1"@);
    vstd::utf8::is_ascii_chars_encode_utf8("add-pqxdh-v1"@);
    assert(pqxdh_version().len() == 12);
    assert(w[0] == 12u8);
    assert(w.subrange(1, 13) =~= pqxdh_version());
    assert(w.subrange(13, 45) =~= init_pk);
    assert(w.subrange(45, 77) =~= resp_pk);
    assert(w.subrange(2445, 3565) =~= init_ct);
    assert(w.subrange(3565, 4685) =~= resp_ct);
}

/// The root key of a handshake's ratchet state: SHA3-256 over its tag, the
/// X25519 agreement and both session keys.
pub open spec fn ratchet_root_of(dh: Seq<u8>, send_key: Seq<u8>, recv_key: Seq<u8>) -> Seq<u8> {
    sha3_256("add-pqxdh-root-v1".spec_bytes() + dh + send_key + recv_key)
}

/// The first chain key of a root key.
pub open spec fn chain_one_of(root: Seq<u8>) -> Seq<u8> {
    hkdf_sha256(Some(root), "add-pqxdh-chains-v1".spec_bytes(), Seq::empty(), 32)
}

/// The second chain key of a root key.
pub open spec fn chain_two_of(root: Seq<u8>) -> Seq<u8> {
    hkdf_sha256(Some(root), "add-pqxdh-chains-v2".spec_bytes(), Seq::empty(), 32)
}

/// The ratchet state of the session keys, with the X25519 agreement of the
/// given ephemeral secret and the responder's ephemeral key: the initiator
/// sends on the first chain and receives on the second, the responder the
/// other way round; both counters start at zero.
pub fn init_ratchet_state_with(
    session_keys: &PqxDhSessionKeys,
    _init_eph_pk: &[u8; 32],
    resp_eph_pk: &[u8; 32],
    is_initiator: bool,
    eph_secret: &[u8; 32],
) -> (r: Result<PqxDhRatchetState, PqError>)
    ensures
        r matches Ok(s) && ({
            let root = ratchet_root_of(x25519_shared(eph_secret@, resp_eph_pk@), session_keys.send_key@, session_keys.recv_key@);
            &&& s.root_key@ == root
            &&& s.send_chain_key@ == (if is_initiator { chain_one_of(root) } else { chain_two_of(root) })
            &&& s.recv_chain_key@ == (if is_initiator { chain_two_of(root) } else { chain_one_of(root) })
            &&& s.send_message_counter == 0
            &&& s.recv_message_counter == 0
            &&& s.is_initiator == is_initiator
        }),
{
    let dh = x25519_diffie_hellman(eph_secret, resp_eph_pk);
    let mut input = slice_to_vec("add-pqxdh-root-v1".as_bytes());
    input.extend_from_slice(dh.as_slice());
    input.extend_from_slice(session_keys.send_key.as_slice());
    input.extend_from_slice(session_keys.recv_key.as_slice());
    assert(input@ =~= "add-pqxdh-root-v1".spec_bytes() + dh@ + session_keys.send_key@ + session_keys.recv_key@);
    let root = to_array32(sha3_256_digest(input.as_slice()).as_slice());
    let empty: [u8; 0] = [];
    assert(empty@ =~= Seq::<u8>::empty());
    let one = match hkdf_sha256_expand(Some(root.as_slice()), "add-pqxdh-chains-v1".as_bytes(), empty.as_slice(), 32) {
        Some(k) => k,
        None => return Err(PqError::DerivationFailed("send chain".to_string())),
    };
    let two = match hkdf_sha256_expand(Some(root.as_slice()), "add-pqxdh-chains-v2".as_bytes(), empty.as_slice(), 32) {
        Some(k) => k,
        None => return Err(PqError::DerivationFailed("recv chain".to_string())),
    };
    let (send_ck, recv_ck) = if is_initiator {
        (to_array32(one.as_slice()), to_array32(two.as_slice()))
    } else {
        (to_array32(two.as_slice()), to_array32(one.as_slice()))
    };
    Ok(PqxDhRatchetState {
        root_key: root,
        send_chain_key: send_ck,
        recv_chain_key: recv_ck,
        send_message_counter: 0,
        recv_message_counter: 0,
        is_initiator,
    })
}

/// The random values of a handshake: the ephemeral secret and ML-KEM
/// message of each encapsulation, the nonce, and the ratchet's ephemeral
/// secret.
pub struct HandshakeRandomness {
    pub eph_to_resp: [u8; 32],
    pub m_to_resp: [u8; 32],
    pub eph_to_init: [u8; 32],
    pub m_to_init: [u8; 32],
    pub nonce: [u8; 32],
    pub ratchet_eph: [u8; 32],
}

/// The two secrets a handshake derives its keys from: the encapsulation to
/// the responder (bound to the initiator's X25519 key) and the one to the
/// initiator (bound to the responder's ephemeral key).
pub open spec fn handshake_secrets(
    init_public: Seq<u8>,
    init_enc: Seq<u8>,
    resp_public: Seq<u8>,
    resp_enc: Seq<u8>,
    resp_eph_pk: Seq<u8>,
    rnd: HandshakeRandomness,
) -> (Seq<u8>, Seq<u8>) {
    (
        hybrid_encaps_of(resp_enc, resp_public, init_public, rnd.eph_to_resp@, rnd.m_to_resp@).2,
        hybrid_encaps_of(init_enc, init_public, resp_eph_pk, rnd.eph_to_init@, rnd.m_to_init@).2,
    )
}

/// Run both sides of a handshake in one place with the given random values:
/// the initiator's session keys and ratchet state.
pub fn execute_pqxdh_handshake_with(
    init_keypair: &HybridKeypair,
    init_ephemeral_x25519_pk: &[u8; 32],
    resp_keypair: &HybridKeypair,
    resp_ephemeral_x25519_pk: &[u8; 32],
    rnd: &HandshakeRandomness,
) -> (r: Result<(PqxDhSessionKeys, PqxDhRatchetState), PqError>)
    ensures
        r matches Ok((k, s)) && ({
            let (ours, theirs) = handshake_secrets(
                init_keypair.public(),
                init_keypair.enc(),
                resp_keypair.public(),
                resp_keypair.enc(),
                resp_ephemeral_x25519_pk@,
                *rnd,
            );
            let root = ratchet_root_of(
                x25519_shared(rnd.ratchet_eph@, resp_ephemeral_x25519_pk@),
                k.send_key@,
                k.recv_key@,
            );
            &&& (k.send_key@, k.recv_key@, k.send_iv@, k.recv_iv@) == session_keys_model(ours, theirs, rnd.nonce@, true)
            &&& s.root_key@ == root
            &&& s.send_chain_key@ == chain_one_of(root)
            &&& s.recv_chain_key@ == chain_two_of(root)
            &&& s.is_initiator
            &&& s.send_message_counter == 0 && s.recv_message_counter == 0
        }),
{
    let init_pub = init_keypair.x25519_public();
    let resp_enc = resp_keypair.mlkem_encapsulation_key();
    let resp_pub = resp_keypair.x25519_public();
    let (our_ct, our_ss) = hybrid_encapsulate_with(&resp_enc, &resp_pub, &init_pub, &rnd.eph_to_resp, &rnd.m_to_resp);
    let init_enc = init_keypair.mlkem_encapsulation_key();
    let (their_ct, their_ss) = hybrid_encapsulate_with(&init_enc, &init_pub, resp_ephemeral_x25519_pk, &rnd.eph_to_init, &rnd.m_to_init);
    let _init_decaps = hybrid_decapsulate(&their_ct, init_keypair, resp_ephemeral_x25519_pk);
    let _resp_decaps = hybrid_decapsulate(&our_ct, resp_keypair, init_ephemeral_x25519_pk);
    let session_keys = match derive_session_keys(&our_ss, &their_ss, &rnd.nonce, true) {
        Ok(k) => k,
        Err(e) => return Err(e),
    };
    let ratchet_state = match init_ratchet_state_with(
        &session_keys,
        init_ephemeral_x25519_pk,
        resp_ephemeral_x25519_pk,
        true,
        &rnd.ratchet_eph,
    ) {
        Ok(s) => s,
        Err(e) => return Err(e),
    };
    Ok((session_keys, ratchet_state))
}

/// Run both sides of a handshake with fresh random values.
pub fn execute_pqxdh_handshake(
    init_keypair: &HybridKeypair,
    init_ephemeral_x25519_pk: &[u8; 32],
    resp_keypair: &HybridKeypair,
    resp_ephemeral_x25519_pk: &[u8; 32],
) -> (r: Result<(PqxDhSessionKeys, PqxDhRatchetState), PqError>)
    ensures
        r matches Ok((k, s)) && exists|rnd: HandshakeRandomness| {
            let (ours, theirs) = #[trigger] handshake_secrets(
                init_keypair.public(),
                init_keypair.enc(),
                resp_keypair.public(),
                resp_keypair.enc(),
                resp_ephemeral_x25519_pk@,
                rnd,
            );
            &&& (k.send_key@, k.recv_key@, k.send_iv@, k.recv_iv@) == session_keys_model(ours, theirs, rnd.nonce@, true)
            &&& s.is_initiator
            &&& s.send_message_counter == 0 && s.recv_message_counter == 0
        },
{
    let rnd = HandshakeRandomness {
        eph_to_resp: to_array32(random_bytes(32).as_slice()),
        m_to_resp: to_array32(random_bytes(32).as_slice()),
        eph_to_init: to_array32(random_bytes(32).as_slice()),
        m_to_init: to_array32(random_bytes(32).as_slice()),
        nonce: to_array32(random_bytes(32).as_slice()),
        ratchet_eph: to_array32(random_bytes(32).as_slice()),
    };
    execute_pqxdh_handshake_with(init_keypair, init_ephemeral_x25519_pk, resp_keypair, resp_ephemeral_x25519_pk, &rnd)
}

/// Whether our ephemeral secret's agreement with the ciphertext's X25519
/// part is non-zero, after checking the ciphertext decapsulates.
pub fn verify_deniability(
    our_secret: &[u8; 32],
    their_ct: &HybridCiphertext,
    their_pk: &[u8; 32],
    our_keypair: &HybridKeypair,
) -> (r: Result<bool, PqError>)
    ensures
        their_ct.mlkem_ct@.len() != MLKEM768_CT_SIZE ==> r == Err::<bool, PqError>(
            PqError::InvalidKeyLength { expected: MLKEM768_CT_SIZE, got: their_ct.mlkem_ct@.len() as usize },
        ),
        their_ct.mlkem_ct@.len() == MLKEM768_CT_SIZE ==> r == Ok::<bool, PqError>(
            x25519_shared(our_secret@, their_ct.x25519_ct@) != Seq::new(32, |i: int| 0u8),
        ),
{
    match hybrid_decapsulate(their_ct, our_keypair, their_pk) {
        Ok(_) => {},
        Err(e) => return Err(e),
    }
    let dh = x25519_diffie_hellman(our_secret, &their_ct.x25519_ct);
    Ok(!is_all_zero(&dh))
}

/// The all-zero ML-KEM-768 key.
pub open spec fn zero_ek() -> Seq<u8> {
    Seq::new(1184, |i: int| 0u8)
}

/// The sending chain key after a PQXDH ratchet step with combined secret `ss`.
pub open spec fn pqxdh_chain_step(send_chain_key: Seq<u8>, ss: Seq<u8>) -> Seq<u8> {
    hkdf_sha256(Some(send_chain_key), ss, "add-pqxdh-ratchet-chain-v1".spec_bytes(), 32)
}

/// A PQXDH ratchet step with the given random values: our ephemeral secret
/// is replaced by `new_secret`, a second secret `eph` agrees with the
/// peer's ephemeral key, the ML-KEM half encapsulates (with `m`) to the
/// all-zero key, and the sending chain key is re-derived from the combined
/// secret.
pub fn ratchet_step_with(
    our_state: &mut PqxDhRatchetState,
    our_ephemeral_secret: &mut [u8; 32],
    our_keypair: &HybridKeypair,
    peer_eph_pk: &[u8; 32],
    _peer_mlkem_enc: &MlKem768EncapsulationKey,
    new_secret: &[u8; 32],
    eph: &[u8; 32],
    m: &[u8; 32],
) -> (r: Result<(HybridCiphertext, HybridSharedSecret), PqError>)
    ensures
        *final(our_ephemeral_secret) == *new_secret,
        ({
            let x = x25519_public_of(new_secret@);
            let k = mlkem768_encaps(zero_ek(), m@);
            let ss = combined_secret(x25519_shared(eph@, peer_eph_pk@), k.1, x, our_keypair.public());
            &&& r matches Ok((ct, secret)) && ct.x25519_ct@ == x && ct.mlkem_ct@ == k.0 && secret@ == ss
            &&& final(our_state).send_chain_key@ == pqxdh_chain_step(old(our_state).send_chain_key@, ss)
        }),
        final(our_state).root_key == old(our_state).root_key,
        final(our_state).recv_chain_key == old(our_state).recv_chain_key,
        final(our_state).send_message_counter == old(our_state).send_message_counter,
        final(our_state).recv_message_counter == old(our_state).recv_message_counter,
        final(our_state).is_initiator == old(our_state).is_initiator,
{
    *our_ephemeral_secret = *new_secret;
    let our_new_pk = x25519_public(new_secret);
    let dh = x25519_diffie_hellman(eph, peer_eph_pk);
    let zero_key = MlKem768EncapsulationKey::zero_key();
    let (mlkem_ct, mlkem_ss) = mlkem768_encapsulate_to(&zero_key, m.as_slice());
    let our_pub = our_keypair.x25519_public();
    let combined_ss = combine_shared_secrets(&dh, mlkem_ss.as_slice(), &our_new_pk, &our_pub);
    let ct = HybridCiphertext { x25519_ct: our_new_pk, mlkem_ct };
    let new_chain_key = match hkdf_sha256_expand(
        Some(our_state.send_chain_key.as_slice()),
        combined_ss.as_bytes().as_slice(),
        "add-pqxdh-ratchet-chain-v1".as_bytes(),
        32,
    ) {
        Some(k) => k,
        None => return Err(PqError::DerivationFailed("ratchet chain".to_string())),
    };
    our_state.send_chain_key = to_array32(new_chain_key.as_slice());
    Ok((ct, combined_ss))
}

/// A PQXDH ratchet step with fresh random values.
pub fn ratchet_step(
    our_state: &mut PqxDhRatchetState,
    our_ephemeral_secret: &mut [u8; 32],
    our_keypair: &HybridKeypair,
    peer_eph_pk: &[u8; 32],
    peer_mlkem_enc: &MlKem768EncapsulationKey,
) -> (r: Result<(HybridCiphertext, HybridSharedSecret), PqError>)
    ensures
        r matches Ok((ct, secret)) && ct.x25519_ct@ == x25519_public_of(final(our_ephemeral_secret)@) && exists|
            eph: Seq<u8>,
            m: Seq<u8>,
        |
            #![trigger mlkem768_encaps(zero_ek(), m), x25519_shared(eph, peer_eph_pk@)]
            {
            let k = mlkem768_encaps(zero_ek(), m);
            let ss = combined_secret(x25519_shared(eph, peer_eph_pk@), k.1, ct.x25519_ct@, our_keypair.public());
            &&& ct.mlkem_ct@ == k.0 && secret@ == ss
            &&& final(our_state).send_chain_key@ == pqxdh_chain_step(old(our_state).send_chain_key@, ss)
        },
        final(our_state).root_key == old(our_state).root_key,
        final(our_state).recv_chain_key == old(our_state).recv_chain_key,
{
    let new_secret = to_array32(random_bytes(32).as_slice());
    let eph = to_array32(random_bytes(32).as_slice());
    let m = to_array32(random_bytes(32).as_slice());
    ratchet_step_with(our_state, our_ephemeral_secret, our_keypair, peer_eph_pk, peer_mlkem_enc, &new_secret, &eph, &m)
}

} // verus!
