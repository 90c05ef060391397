//! Per-contact encrypted presence: the listener address sealed with a
//! per-pair ML-KEM-1024 secret, stored under a key both contacts can compute
//! and nobody else can link to them.
use vstd::prelude::*;
use vstd::slice::slice_to_vec;
use vstd::string::{StringExecFns, StringSliceAdditionalSpecFns};
use vstd::utf8::{
    decode_utf8, encode_utf8, encode_utf8_decode_utf8, encode_utf8_valid_utf8, is_ascii_chars, is_ascii_chars_encode_utf8,
    valid_utf8,
};
use crate::error::CryptoError;
use crate::kyber::{decode_enc_key, MlKem1024Keypair};
use crate::messaging::sha256_hex;
use crate::primitives::{
    aes256gcm_decrypt, aes256gcm_encrypt, aes256gcm_open, aes256gcm_seal, aes_gcm_max_len, base64_decode,
    base64_encode, base64_std_decode, base64_std_encode, hex_decode, is_base64_char, hex_decoded, hex_encode, hex_lower,
    mlkem1024_decaps, mlkem1024_ek_valid, mlkem1024_encaps, random_bytes, sha256, string_from_utf8,
    MLKEM1024_CT_LEN, MLKEM1024_EK_LEN,
};
use crate::text::{first_index, split_once_ascii};

verus! {

/// What the presence key hashes: owner fingerprint, `||`, contact fingerprint.
pub open spec fn presence_key_input(owner_fp: Seq<char>, contact_fp: Seq<char>) -> Seq<u8> {
    encode_utf8(owner_fp) + seq![124u8, 124u8] + encode_utf8(contact_fp)
}

/// The blob-store key of the presence `owner_fp` publishes for `contact_fp`:
/// `presence:` and the hex SHA-256 of both fingerprints.
pub fn presence_blob_key(owner_fp: &str, contact_fp: &str) -> (r: String)
    ensures
        r@ == "presence:"@ + hex_lower(sha256(presence_key_input(owner_fp@, contact_fp@))),
{
    let mut data: Vec<u8> = slice_to_vec(owner_fp.as_bytes());
    data.push(124u8);
    data.push(124u8);
    data.extend_from_slice(contact_fp.as_bytes());
    assert(data@ =~= presence_key_input(owner_fp@, contact_fp@));
    let h = sha256_hex(data.as_slice());
    String::from_str("presence:").concat(h.as_str())
}

/// The sealed form of `plaintext`: base64 of the nonce and the AES-256-GCM
/// ciphertext.
pub open spec fn sealed_text(key: Seq<u8>, nonce: Seq<u8>, plaintext: Seq<u8>) -> Seq<char> {
    base64_std_encode(nonce + aes256gcm_seal(key, nonce, Seq::empty(), plaintext))
}

/// Seal `plaintext` under a 32-byte key with the given 12-byte nonce.
pub fn seal_with_nonce(key: &[u8], plaintext: &[u8], nonce: &[u8; 12]) -> (r: Result<String, CryptoError>)
    requires
        key@.len() == 32,
    ensures
        plaintext@.len() <= aes_gcm_max_len() ==> (r matches Ok(s) && s@ == sealed_text(key@, nonce@, plaintext@)),
        plaintext@.len() > aes_gcm_max_len() ==> r matches Err(CryptoError::EncryptFailed(_)),
        r matches Ok(s) ==> opened(key@, s@) == Some(plaintext@),
{
    let empty: [u8; 0] = [];
    assert(empty@ =~= Seq::<u8>::empty());
    let ct = match aes256gcm_encrypt(key, nonce.as_slice(), empty.as_slice(), plaintext) {
        Some(c) => c,
        None => return Err(CryptoError::EncryptFailed("aes seal".to_string())),
    };
    let mut out: Vec<u8> = slice_to_vec(nonce.as_slice());
    out.extend_from_slice(ct.as_slice());
    assert(out@ =~= nonce@ + ct@);
    assert(out@.subrange(0, 12) =~= nonce@);
    assert(out@.subrange(12, out@.len() as int) =~= ct@);
    Ok(base64_encode(out.as_slice()))
}

/// Seal `plaintext` under a 32-byte key with a random nonce.
pub fn seal(key: &[u8], plaintext: &[u8]) -> (r: Result<String, CryptoError>)
    requires
        key@.len() == 32,
    ensures
        plaintext@.len() <= aes_gcm_max_len() ==> r is Ok,
        r matches Ok(s) ==> exists|n: Seq<u8>| n.len() == 12 && s@ == #[trigger] sealed_text(key@, n, plaintext@),
        r matches Ok(s) ==> opened(key@, s@) == Some(plaintext@),
        r is Err ==> r matches Err(CryptoError::EncryptFailed(_)),
{
    let n = random_bytes(12);
    let nonce = crate::codec::to_array12(n.as_slice());
    let r = seal_with_nonce(key, plaintext, &nonce);
    proof {
        if r is Ok {
            assert(nonce@.len() == 12);
        }
    }
    r
}

/// What opening a sealed text gives: base64-decode, split off the 12-byte
/// nonce, AES-256-GCM-open the rest.
pub open spec fn opened(key: Seq<u8>, text: Seq<char>) -> Option<Seq<u8>> {
    match base64_std_decode(text) {
        None => None,
        Some(raw) => if raw.len() < 12 {
            None
        } else {
            aes256gcm_open(key, raw.subrange(0, 12), Seq::empty(), raw.subrange(12, raw.len() as int))
        },
    }
}

/// Open a sealed text under a 32-byte key.
pub fn open_sealed(key: &[u8], b64: &str) -> (r: Result<Vec<u8>, CryptoError>)
    requires
        key@.len() == 32,
    ensures
        match opened(key@, b64@) {
            Some(p) => r matches Ok(v) && v@ == p,
            None => r matches Err(CryptoError::DecryptFailed(_)),
        },
{
    let raw = match base64_decode(b64) {
        Some(r) => r,
        None => return Err(CryptoError::DecryptFailed("b64 decode".to_string())),
    };
    if raw.len() < 12 {
        return Err(CryptoError::DecryptFailed("presence ciphertext too short".to_string()));
    }
    let nonce = &raw.as_slice()[0..12];
    let ct = &raw.as_slice()[12..raw.len()];
    let empty: [u8; 0] = [];
    assert(empty@ =~= Seq::<u8>::empty());
    assert(nonce@ =~= raw@.subrange(0, 12));
    assert(ct@ =~= raw@.subrange(12, raw@.len() as int));
    match aes256gcm_decrypt(key, nonce, empty.as_slice(), ct) {
        Some(p) => Ok(p),
        None => Err(CryptoError::DecryptFailed("aes open".to_string())),
    }
}

/// Encapsulate a per-pair secret to a contact's published base64 KEM key:
/// the hex ciphertext and the shared secret.
pub fn pair_encapsulate_to(peer_enc_b64: &str) -> (r: Result<(String, Vec<u8>), CryptoError>)
    ensures
        match base64_std_decode(peer_enc_b64@) {
            Some(ek) => if ek.len() == MLKEM1024_EK_LEN && mlkem1024_ek_valid(ek) {
                r matches Ok((ct_hex, ss)) && exists|m: Seq<u8>|
                    m.len() == 32 && (#[trigger] mlkem1024_encaps(ek, m)).1 == ss@ && ct_hex@ == hex_lower(
                        mlkem1024_encaps(ek, m).0,
                    )
            } else {
                r is Err
            },
            None => r is Err,
        },
{
    let enc = match decode_enc_key(peer_enc_b64) {
        Ok(k) => k,
        Err(e) => return Err(e),
    };
    let (ct, ss) = match MlKem1024Keypair::encapsulate(&enc) {
        Ok(pair) => pair,
        Err(e) => return Err(e),
    };
    let ct_hex = hex_encode(ct.as_slice());
    Ok((ct_hex, ss))
}

/// What decapsulating a hex KEM ciphertext with our seed gives.
pub open spec fn pair_secret(seed: Seq<u8>, ct_hex: Seq<char>) -> Option<Seq<u8>> {
    match hex_decoded(encode_utf8(ct_hex)) {
        Some(ct) => if ct.len() == MLKEM1024_CT_LEN {
            Some(mlkem1024_decaps(seed, ct))
        } else {
            None
        },
        None => None,
    }
}

/// Recover the per-pair secret from a hex KEM ciphertext with our key pair.
pub fn pair_decapsulate(our_kp: &MlKem1024Keypair, ct_hex: &str) -> (r: Result<Vec<u8>, CryptoError>)
    ensures
        match pair_secret(our_kp.dec@, ct_hex@) {
            Some(ss) => r matches Ok(v) && v@ == ss,
            None => r matches Err(CryptoError::DecryptFailed(_)),
        },
        r matches Ok(v) ==> v@.len() == 32,
{
    let ct = match hex_decode(ct_hex) {
        Some(c) => c,
        None => return Err(CryptoError::DecryptFailed("kem ct hex decode".to_string())),
    };
    if ct.len() != MLKEM1024_CT_LEN {
        return Err(CryptoError::DecryptFailed("kem ct parse".to_string()));
    }
    match our_kp.decapsulate(ct.as_slice()) {
        Ok(ss) => Ok(ss),
        Err(_) => Err(CryptoError::DecryptFailed("decapsulate".to_string())),
    }
}

/// The stored presence value: base64 of the hex KEM ciphertext, `.`, and
/// the sealed address.
pub fn presence_value(kem_ct_hex: &str, sealed: &str) -> (r: String)
    ensures
        r@ == base64_std_encode(encode_utf8(kem_ct_hex@)) + "."@ + sealed@,
{
    let ct_b64 = base64_encode(kem_ct_hex.as_bytes());
    ct_b64.concat(".").concat(sealed)
}

/// The address a stored presence value opens to with our KEM seed, if any.
pub open spec fn presence_opened(seed: Seq<u8>, value: Seq<char>) -> Option<Seq<char>> {
    let v = encode_utf8(value);
    match first_index(v, 46) {
        None => None,
        Some(i) => match base64_std_decode(decode_utf8(v.subrange(0, i))) {
            None => None,
            Some(hexb) => if !valid_utf8(hexb) {
                None
            } else {
                match pair_secret(seed, decode_utf8(hexb)) {
                    None => None,
                    Some(ss) => match opened(ss, decode_utf8(v.subrange(i + 1, v.len() as int))) {
                        None => None,
                        Some(p) => if valid_utf8(p) {
                            Some(decode_utf8(p))
                        } else {
                            None
                        },
                    },
                }
            },
        },
    }
}

/// Open a contact's stored presence value with our key pair: split at the
/// first `.`, recover the per-pair secret, open the sealed address.
pub fn open_presence_value(our_kp: &MlKem1024Keypair, value: &str) -> (r: Option<String>)
    ensures
        r matches Some(s) ==> presence_opened(our_kp.dec@, value@) == Some(s@),
        r is None ==> presence_opened(our_kp.dec@, value@) is None,
{
    let (ct_b64, aes_b64) = match split_once_ascii(value, 46u8) {
        Some(parts) => parts,
        None => return None,
    };
    proof {
        vstd::utf8::encode_utf8_decode_utf8(ct_b64@);
        vstd::utf8::encode_utf8_decode_utf8(aes_b64@);
    }
    let hex_bytes = match base64_decode(ct_b64) {
        Some(b) => b,
        None => return None,
    };
    let kem_ct_hex = match string_from_utf8(hex_bytes) {
        Some(s) => s,
        None => return None,
    };
    let ss = match pair_decapsulate(our_kp, kem_ct_hex.as_str()) {
        Ok(s) => s,
        Err(_) => return None,
    };
    assert(ss@.len() == 32);
    let plain = match open_sealed(ss.as_slice(), aes_b64) {
        Ok(p) => p,
        Err(_) => return None,
    };
    string_from_utf8(plain)
}

/// What the presence record is signed over: the key, `|`, the value.
pub fn presence_sign_data(key: &str, value: &str) -> (r: String)
    ensures
        r@ == key@ + "|"@ + value@,
{
    String::from_str(key).concat("|").concat(value)
}


/// The UTF-8 encoding of a concatenation is the concatenation of the
/// encodings.
pub proof fn lemma_encode_utf8_concat(a: Seq<char>, b: Seq<char>)
    ensures
        encode_utf8(a + b) == encode_utf8(a) + encode_utf8(b),
    decreases a.len(),
{
    if a.len() == 0 {
        assert(a + b =~= b);
        assert(encode_utf8(a) + encode_utf8(b) =~= encode_utf8(b));
    } else {
        assert((a + b).drop_first() =~= a.drop_first() + b);
        assert((a + b)[0] == a[0]);
        lemma_encode_utf8_concat(a.drop_first(), b);
        assert(encode_utf8(a + b) =~= encode_utf8(a) + encode_utf8(b));
    }
}

/// A presence value opens, with the contact's KEM seed, to the sealed
/// address: when the contact's decapsulation of the KEM ciphertext gives
/// the secret the address was sealed under.  The remaining premises are
/// what `base64_encode` states of the ciphertext text's encoding and what
/// `seal_with_nonce` states of the sealed address.
pub proof fn law_presence_roundtrip(seed: Seq<u8>, kem_ct_hex: Seq<char>, sealed: Seq<char>, ss: Seq<u8>, addr: Seq<char>)
    requires
        pair_secret(seed, kem_ct_hex) == Some(ss),
        base64_std_decode(base64_std_encode(encode_utf8(kem_ct_hex))) == Some(encode_utf8(kem_ct_hex)),
        forall|i: int|
            0 <= i < base64_std_encode(encode_utf8(kem_ct_hex)).len() ==> is_base64_char(
                #[trigger] base64_std_encode(encode_utf8(kem_ct_hex))[i],
            ) || base64_std_encode(encode_utf8(kem_ct_hex))[i] == '=',
        opened(ss, sealed) == Some(encode_utf8(addr)),
    ensures
        presence_opened(seed, base64_std_encode(encode_utf8(kem_ct_hex)) + "."@ + sealed) == Some(addr),
{
    let bc = base64_std_encode(encode_utf8(kem_ct_hex));
    let n = bc.len() as int;
    reveal_strlit(".");
    assert(is_ascii_chars(bc)) by {
        assert forall|i: int| 0 <= i < bc.len() implies '\0' <= #[trigger] bc[i] <= '\u{7f}' by {
            assert(is_base64_char(bc[i]) || bc[i] == '=');
        }
    }
    is_ascii_chars_encode_utf8(bc);
    is_ascii_chars_encode_utf8("."@);
    lemma_encode_utf8_concat(bc, "."@);
    lemma_encode_utf8_concat(bc + "."@, sealed);
    let v = encode_utf8(bc + "."@ + sealed);
    let eb = encode_utf8(bc);
    assert(v =~= eb + seq![46u8] + encode_utf8(sealed));
    assert(forall|j: int| 0 <= j < n ==> #[trigger] v[j] == bc[j] as u8);
    assert(forall|j: int| 0 <= j < n ==> #[trigger] v[j] != 46u8) by {
        assert forall|j: int| 0 <= j < n implies #[trigger] v[j] != 46u8 by {
            assert(v[j] == bc[j] as u8);
            assert(is_base64_char(bc[j]) || bc[j] == '=');
        }
    }
    assert(v[n] == 46u8);
    let i = choose|i: int| 0 <= i < v.len() && v[i] == 46u8 && forall|j: int| 0 <= j < i ==> v[j] != 46u8;
    assert(first_index(v, 46) == Some(i));
    assert(i == n) by {
        if i < n {
            assert(v[i] != 46u8);
        } else if i > n {
            assert(v[n] != 46u8);
        }
    }
    assert(v.subrange(0, n) =~= eb);
    assert(v.subrange(n + 1, v.len() as int) =~= encode_utf8(sealed));
    encode_utf8_decode_utf8(bc);
    encode_utf8_decode_utf8(sealed);
    encode_utf8_decode_utf8(kem_ct_hex);
    encode_utf8_valid_utf8(kem_ct_hex);
    encode_utf8_valid_utf8(addr);
    encode_utf8_decode_utf8(addr);
}

} // verus!
