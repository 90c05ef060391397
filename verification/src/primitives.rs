//! The boundary to the outside cryptographic crates.
//!
//! Every function here is trusted: Verus believes its contract without
//! reading its body.  Deterministic primitives are tied to a named result
//! (an uninterpreted spec function of their arguments); random sources only
//! promise the length of what they return.
use vstd::prelude::*;
use rand::RngCore;
use aes_gcm::aead::{Aead, KeyInit, Payload};
use base64::Engine;
use ml_kem::KeyExport;
use ml_kem::kem::Decapsulate;
use vstd::utf8::{decode_utf8, encode_utf8, is_ascii_chars, valid_utf8};
use vstd::string::{StrSliceExecFns, StringExecFns, StringSliceAdditionalSpecFns};

verus! {

/// AES-256-GCM encryption of `pt` under `key` and `nonce` with associated
/// data `aad`: ciphertext followed by the 16-byte tag.
pub uninterp spec fn aes256gcm_seal(key: Seq<u8>, nonce: Seq<u8>, aad: Seq<u8>, pt: Seq<u8>) -> Seq<u8>;

/// AES-256-GCM decryption: `None` when the tag does not authenticate.
pub uninterp spec fn aes256gcm_open(key: Seq<u8>, nonce: Seq<u8>, aad: Seq<u8>, ct: Seq<u8>) -> Option<Seq<u8>>;

/// Largest plaintext (and associated data) that `aes-gcm` accepts: 2^36 bytes.
pub open spec fn aes_gcm_max_len() -> int {
    68719476736
}

/// `n` bytes from the thread-local CSPRNG (`rand::thread_rng().fill_bytes`).
/// Only the length is promised.
#[verifier::external_body]
pub fn random_bytes(n: usize) -> (out: Vec<u8>)
    ensures
        out@.len() == n,
{
    let mut v = vec![0u8; n];
    rand::thread_rng().fill_bytes(&mut v);
    v
}

/// `Aes256Gcm::new(key).encrypt(nonce, Payload { msg: pt, aad })` from the
/// `aes-gcm` crate.  The crate returns an error exactly when the plaintext
/// or the associated data is longer than 2^36 bytes; otherwise the result is
/// the named AES-GCM ciphertext (the plaintext's length plus the 16-byte
/// tag), which (GCM being a correct authenticated
/// cipher) decrypts under the same key, nonce and associated data back to
/// the plaintext.
#[verifier::external_body]
pub fn aes256gcm_encrypt(key: &[u8], nonce: &[u8], aad: &[u8], pt: &[u8]) -> (out: Option<Vec<u8>>)
    requires
        key@.len() == 32,
        nonce@.len() == 12,
    ensures
        out matches Some(ct) ==> ct@ == aes256gcm_seal(key@, nonce@, aad@, pt@),
        out matches Some(ct) ==> aes256gcm_open(key@, nonce@, aad@, ct@) == Some(pt@),
        out matches Some(ct) ==> ct@.len() == pt@.len() + 16,
        pt@.len() <= aes_gcm_max_len() && aad@.len() <= aes_gcm_max_len() ==> out is Some,
        out is Some ==> pt@.len() <= aes_gcm_max_len() && aad@.len() <= aes_gcm_max_len(),
{
    let cipher = aes_gcm::Aes256Gcm::new(aes_gcm::Key::<aes_gcm::Aes256Gcm>::from_slice(key));
    cipher.encrypt(aes_gcm::Nonce::from_slice(nonce), Payload { msg: pt, aad }).ok()
}

/// `Aes256Gcm::new(key).decrypt(nonce, Payload { msg: ct, aad })` from the
/// `aes-gcm` crate.  The result is the named AES-GCM decryption.
#[verifier::external_body]
pub fn aes256gcm_decrypt(key: &[u8], nonce: &[u8], aad: &[u8], ct: &[u8]) -> (out: Option<Vec<u8>>)
    requires
        key@.len() == 32,
        nonce@.len() == 12,
    ensures
        out matches Some(pt) ==> aes256gcm_open(key@, nonce@, aad@, ct@) == Some(pt@),
        out is None ==> aes256gcm_open(key@, nonce@, aad@, ct@) is None,
{
    let cipher = aes_gcm::Aes256Gcm::new(aes_gcm::Key::<aes_gcm::Aes256Gcm>::from_slice(key));
    cipher.decrypt(aes_gcm::Nonce::from_slice(nonce), Payload { msg: ct, aad }).ok()
}

// ---------------------------------------------------------------------------
// HKDF-SHA256 / HKDF-SHA512
// ---------------------------------------------------------------------------

/// HKDF-SHA256 (RFC 5869) output keying material of length `len` for the
/// optional `salt`, input keying material `ikm` and context `info`.
pub uninterp spec fn hkdf_sha256(salt: Option<Seq<u8>>, ikm: Seq<u8>, info: Seq<u8>, len: nat) -> Seq<u8>;

/// HKDF-SHA512 output keying material, as `hkdf_sha256` with SHA-512.
pub uninterp spec fn hkdf_sha512(salt: Option<Seq<u8>>, ikm: Seq<u8>, info: Seq<u8>, len: nat) -> Seq<u8>;

/// `Hkdf::<Sha256>::new(salt, ikm).expand(info, &mut okm)` from the `hkdf`
/// crate with an `okm` buffer of `len` bytes.  `expand` refuses lengths
/// above 255 hash blocks (8160 bytes); otherwise the output is the named
/// HKDF result.
#[verifier::external_body]
pub fn hkdf_sha256_expand(salt: Option<&[u8]>, ikm: &[u8], info: &[u8], len: usize) -> (out: Option<Vec<u8>>)
    ensures
        out matches Some(okm) ==> okm@ == hkdf_sha256(
            match salt { Some(s) => Some(s@), None => None },
            ikm@,
            info@,
            len as nat,
        ) && okm@.len() == len,
        out is Some <==> len <= 8160,
{
    let mut okm = vec![0u8; len];
    hkdf::Hkdf::<sha2::Sha256>::new(salt, ikm).expand(info, &mut okm).ok().map(|_| okm)
}

/// `Hkdf::<Sha512>::new(salt, ikm).expand(info, &mut okm)` from the `hkdf`
/// crate with an `okm` buffer of `len` bytes; refuses more than 255 hash
/// blocks (16320 bytes).
#[verifier::external_body]
pub fn hkdf_sha512_expand(salt: Option<&[u8]>, ikm: &[u8], info: &[u8], len: usize) -> (out: Option<Vec<u8>>)
    ensures
        out matches Some(okm) ==> okm@ == hkdf_sha512(
            match salt { Some(s) => Some(s@), None => None },
            ikm@,
            info@,
            len as nat,
        ) && okm@.len() == len,
        out is Some <==> len <= 16320,
{
    let mut okm = vec![0u8; len];
    hkdf::Hkdf::<sha2::Sha512>::new(salt, ikm).expand(info, &mut okm).ok().map(|_| okm)
}

// ---------------------------------------------------------------------------
// Base64 (standard alphabet, padded)
// ---------------------------------------------------------------------------

/// Standard padded base64 encoding of `bytes`.
pub uninterp spec fn base64_std_encode(bytes: Seq<u8>) -> Seq<char>;

/// Standard padded base64 decoding; `None` for malformed input.
pub uninterp spec fn base64_std_decode(text: Seq<char>) -> Option<Seq<u8>>;

/// A character of the standard base64 alphabet.
pub open spec fn is_base64_char(c: char) -> bool {
    ('A' <= c <= 'Z') || ('a' <= c <= 'z') || ('0' <= c <= '9') || c == '+' || c == '/'
}

/// Number of data characters in the padded encoding of `n` bytes.
pub open spec fn base64_data_len(n: nat) -> nat {
    (4 * (n / 3) + if n % 3 == 0 { 0 } else { n % 3 + 1 }) as nat
}

/// `base64::engine::general_purpose::STANDARD.encode(bytes)`.  The encoding
/// is the named one; decoding it gives the bytes back; it is padded to a
/// multiple of four characters, with data characters from the standard
/// alphabet followed by `=` padding.
#[verifier::external_body]
pub fn base64_encode(bytes: &[u8]) -> (out: String)
    ensures
        out@ == base64_std_encode(bytes@),
        base64_std_decode(out@) == Some(bytes@),
        out@.len() == 4 * ((bytes@.len() + 2) / 3),
        forall|i: int| 0 <= i < base64_data_len(bytes@.len()) ==> is_base64_char(#[trigger] out@[i]),
        forall|i: int| base64_data_len(bytes@.len()) <= i < out@.len() ==> #[trigger] out@[i] == '=',
{
    base64::engine::general_purpose::STANDARD.encode(bytes)
}

/// `base64::engine::general_purpose::STANDARD.decode(text)`: the named
/// decoding, `None` when the text is not valid padded standard base64.
#[verifier::external_body]
pub fn base64_decode(text: &str) -> (out: Option<Vec<u8>>)
    ensures
        out matches Some(b) ==> base64_std_decode(text@) == Some(b@),
        out is None ==> base64_std_decode(text@) is None,
{
    base64::engine::general_purpose::STANDARD.decode(text).ok()
}

// ---------------------------------------------------------------------------
// UTF-8
// ---------------------------------------------------------------------------

/// `String::from_utf8(bytes)` from std: `Some` exactly when the bytes are
/// valid UTF-8, and then the string holds their decoding.
#[verifier::external_body]
pub fn string_from_utf8(bytes: Vec<u8>) -> (out: Option<String>)
    ensures
        out is Some <==> valid_utf8(bytes@),
        out matches Some(s) ==> s@ == decode_utf8(bytes@),
{
    String::from_utf8(bytes).ok()
}

/// Replacement-character decoding of bytes that are not valid UTF-8.
pub uninterp spec fn utf8_lossy(bytes: Seq<u8>) -> Seq<char>;

/// `String::from_utf8_lossy(bytes).into_owned()` (std): the decoded text
/// when the bytes are valid UTF-8, otherwise the named replacement-character
/// decoding.
#[verifier::external_body]
pub fn string_from_utf8_lossy(bytes: &[u8]) -> (out: String)
    ensures
        out@ == (if valid_utf8(bytes@) { decode_utf8(bytes@) } else { utf8_lossy(bytes@) }),
{
    String::from_utf8_lossy(bytes).into_owned()
}

/// Unicode upper-casing of a text.
pub uninterp spec fn unicode_upper(s: Seq<char>) -> Seq<char>;

/// Upper case of an ASCII letter; other characters unchanged.
pub open spec fn ascii_upper(c: char) -> char {
    if 'a' <= c <= 'z' {
        ((c as u32) - 32) as char
    } else {
        c
    }
}

/// `str::to_uppercase` (std): the named Unicode upper-casing; on ASCII text
/// it maps `a`..`z` to `A`..`Z` and keeps every other character.
#[verifier::external_body]
pub fn str_to_uppercase(s: &str) -> (out: String)
    ensures
        out@ == unicode_upper(s@),
        is_ascii_chars(s@) ==> out@ == s@.map_values(|c: char| ascii_upper(c)),
{
    s.to_uppercase()
}

/// Unicode lower-casing of a text.
pub uninterp spec fn unicode_lower(s: Seq<char>) -> Seq<char>;

/// Lower case of an ASCII letter; other characters unchanged.
pub open spec fn ascii_lower(c: char) -> char {
    if 'A' <= c <= 'Z' {
        ((c as u32) + 32) as char
    } else {
        c
    }
}

/// `str::to_lowercase` (std): the named Unicode lower-casing; on ASCII text
/// it maps `A`..`Z` to `a`..`z` and keeps every other character.
#[verifier::external_body]
pub fn str_to_lowercase(s: &str) -> (out: String)
    ensures
        out@ == unicode_lower(s@),
        is_ascii_chars(s@) ==> out@ == s@.map_values(|c: char| ascii_lower(c)),
{
    s.to_lowercase()
}

/// The text with every space removed (what `str::replace(' ', "")` gives).
pub fn str_without_spaces(s: &str) -> (out: String)
    ensures
        out@ == s@.filter(|c: char| c != ' '),
{
    let n = s.unicode_len();
    let mut out = String::new();
    let mut i: usize = 0;
    while i < n
        invariant
            n == s@.len(),
            i <= n,
            out@ == s@.take(i as int).filter(|c: char| c != ' '),
        decreases n - i,
    {
        let c = s.get_char(i);
        proof {
            reveal(Seq::filter);
            assert(s@.take(i as int + 1).drop_last() =~= s@.take(i as int));
            assert(s@.take(i as int + 1).last() == c);
        }
        if c != ' ' {
            out.append(s.substring_char(i, i + 1));
            assert(s@.subrange(i as int, i as int + 1) =~= seq![c]);
        }
        i = i + 1;
    }
    assert(s@.take(n as int) =~= s@);
    out
}

// ---------------------------------------------------------------------------
// ML-KEM-1024 (FIPS 203)
// ---------------------------------------------------------------------------

/// Encoded encapsulation key of the ML-KEM-1024 key pair derived from a 64-byte seed.
pub uninterp spec fn mlkem1024_ek_of_seed(seed: Seq<u8>) -> Seq<u8>;

/// Whether a 1568-byte string is a valid ML-KEM-1024 encapsulation key.
pub uninterp spec fn mlkem1024_ek_valid(ek: Seq<u8>) -> bool;

/// ML-KEM-1024 encapsulation of the 32-byte message `m` to `ek`:
/// (ciphertext, shared secret).
pub uninterp spec fn mlkem1024_encaps(ek: Seq<u8>, m: Seq<u8>) -> (Seq<u8>, Seq<u8>);

/// ML-KEM-1024 decapsulation of `ct` with the key pair of `seed`.
pub uninterp spec fn mlkem1024_decaps(seed: Seq<u8>, ct: Seq<u8>) -> Seq<u8>;

/// Size of an ML-KEM-1024 encapsulation key (bytes).
pub const MLKEM1024_EK_LEN: usize = 1568;
/// Size of an ML-KEM-1024 ciphertext (bytes).
pub const MLKEM1024_CT_LEN: usize = 1568;

/// `DecapsulationKey::<MlKem1024>::from_seed(seed).encapsulation_key().to_bytes()`
/// from the `ml-kem` crate: the named key derivation, 1568 bytes, always a
/// valid encapsulation key.
#[verifier::external_body]
pub fn mlkem1024_ek_from_seed(seed: &[u8]) -> (ek: Vec<u8>)
    requires
        seed@.len() == 64,
    ensures
        ek@ == mlkem1024_ek_of_seed(seed@),
        ek@.len() == MLKEM1024_EK_LEN,
        mlkem1024_ek_valid(ek@),
{
    let seed: ml_kem::Seed = ml_kem::array::Array::try_from(seed).unwrap();
    ml_kem::ml_kem_1024::DecapsulationKey::from_seed(seed).encapsulation_key().to_bytes().to_vec()
}

/// `EncapsulationKey::<MlKem1024>::new(ek)` from the `ml-kem` crate, which
/// checks that the encoded key decodes: returns the named validity.
#[verifier::external_body]
pub fn mlkem1024_check_ek(ek: &[u8]) -> (ok: bool)
    requires
        ek@.len() == MLKEM1024_EK_LEN,
    ensures
        ok == mlkem1024_ek_valid(ek@),
{
    match ml_kem::array::Array::try_from(ek) {
        Ok(arr) => ml_kem::ml_kem_1024::EncapsulationKey::new(&arr).is_ok(),
        Err(_) => false,
    }
}

/// `EncapsulationKey::<MlKem1024>::encapsulate_deterministic(m)` from the
/// `ml-kem` crate on a valid key: the named (ciphertext, shared secret), of
/// 1568 and 32 bytes.
#[verifier::external_body]
pub fn mlkem1024_encapsulate_with(ek: &[u8], m: &[u8]) -> (out: (Vec<u8>, Vec<u8>))
    requires
        ek@.len() == MLKEM1024_EK_LEN,
        mlkem1024_ek_valid(ek@),
        m@.len() == 32,
    ensures
        (out.0@, out.1@) == mlkem1024_encaps(ek@, m@),
        out.0@.len() == MLKEM1024_CT_LEN,
        out.1@.len() == 32,
{
    let arr = ml_kem::array::Array::try_from(ek).unwrap();
    let key = ml_kem::ml_kem_1024::EncapsulationKey::new(&arr).unwrap();
    let m: ml_kem::B32 = ml_kem::array::Array::try_from(m).unwrap();
    let (ct, ss) = key.encapsulate_deterministic(&m);
    (ct.to_vec(), ss.to_vec())
}

/// `DecapsulationKey::<MlKem1024>::from_seed(seed).decapsulate(ct)` from the
/// `ml-kem` crate: the named 32-byte shared secret (implicit rejection means
/// it never fails on a well-sized ciphertext).
#[verifier::external_body]
pub fn mlkem1024_decapsulate(seed: &[u8], ct: &[u8]) -> (ss: Vec<u8>)
    requires
        seed@.len() == 64,
        ct@.len() == MLKEM1024_CT_LEN,
    ensures
        ss@ == mlkem1024_decaps(seed@, ct@),
        ss@.len() == 32,
{
    let seed: ml_kem::Seed = ml_kem::array::Array::try_from(seed).unwrap();
    let dk = ml_kem::ml_kem_1024::DecapsulationKey::from_seed(seed);
    let ct = ml_kem::array::Array::try_from(ct).unwrap();
    dk.decapsulate(&ct).to_vec()
}

// ---------------------------------------------------------------------------
// SHA-256
// ---------------------------------------------------------------------------

/// SHA-256 digest of `data`.
pub uninterp spec fn sha256(data: Seq<u8>) -> Seq<u8>;

/// `Sha256::digest(data)` from the `sha2` crate (feeding the same bytes
/// through several `update` calls gives the same digest): the named
/// 32-byte digest.
#[verifier::external_body]
pub fn sha256_digest(data: &[u8]) -> (out: Vec<u8>)
    ensures
        out@ == sha256(data@),
        out@.len() == 32,
{
    <sha2::Sha256 as sha2::Digest>::digest(data).to_vec()
}

// ---------------------------------------------------------------------------
// SHA3-256
// ---------------------------------------------------------------------------

/// SHA3-256 digest of `data`.
pub uninterp spec fn sha3_256(data: Seq<u8>) -> Seq<u8>;

/// `Sha3_256::digest(data)` from the `sha3` crate (several `update` calls
/// hash their concatenation): the named 32-byte digest.
#[verifier::external_body]
pub fn sha3_256_digest(data: &[u8]) -> (out: Vec<u8>)
    ensures
        out@ == sha3_256(data@),
        out@.len() == 32,
{
    <sha3::Sha3_256 as sha3::Digest>::digest(data).to_vec()
}

// ---------------------------------------------------------------------------
// Hex
// ---------------------------------------------------------------------------

/// Lower-case hex digit of a nibble.
pub open spec fn hex_digit(n: u8) -> char {
    if n < 10 {
        (n + 48) as char
    } else {
        (n + 87) as char
    }
}

/// Lower-case hex encoding: two digits per byte, high nibble first.
pub open spec fn hex_lower(bytes: Seq<u8>) -> Seq<char>
    decreases bytes.len(),
{
    if bytes.len() == 0 {
        Seq::empty()
    } else {
        seq![hex_digit(bytes[0] / 16), hex_digit(bytes[0] % 16)] + hex_lower(bytes.drop_first())
    }
}

/// `hex::encode(bytes)` from the `hex` crate: lower-case hex.
#[verifier::external_body]
pub fn hex_encode(bytes: &[u8]) -> (out: String)
    ensures
        out@ == hex_lower(bytes@),
{
    hex::encode(bytes)
}

// ---------------------------------------------------------------------------
// BLAKE2b with 8-byte output
// ---------------------------------------------------------------------------

/// BLAKE2b with an 8-byte output length, of `data`.
pub uninterp spec fn blake2b_8(data: Seq<u8>) -> Seq<u8>;

/// `Blake2bVar::new(8)`, `update(data)`, `finalize_variable` into an 8-byte
/// buffer, from the `blake2` crate: the named 8-byte digest.
#[verifier::external_body]
pub fn blake2b_8_digest(data: &[u8]) -> (out: Vec<u8>)
    ensures
        out@ == blake2b_8(data@),
        out@.len() == 8,
{
    let mut hasher = <blake2::Blake2bVar as blake2::digest::VariableOutput>::new(8).unwrap();
    blake2::digest::Update::update(&mut hasher, data);
    let mut result = vec![0u8; 8];
    let _ = blake2::digest::VariableOutput::finalize_variable(hasher, &mut result);
    result
}

// ---------------------------------------------------------------------------
// HMAC-SHA256
// ---------------------------------------------------------------------------

/// HMAC-SHA256 of `data` under `key`.
pub uninterp spec fn hmac_sha256(key: Seq<u8>, data: Seq<u8>) -> Seq<u8>;

/// `Hmac::<Sha256>::new_from_slice(key)` (which takes keys of any length),
/// `update(data)`, `finalize()` from the `hmac` crate; several `update`
/// calls MAC their concatenation.  The named 32-byte tag.
#[verifier::external_body]
pub fn hmac_sha256_tag(key: &[u8], data: &[u8]) -> (out: Vec<u8>)
    ensures
        out@ == hmac_sha256(key@, data@),
        out@.len() == 32,
{
    let mut mac = <hmac::Hmac<sha2::Sha256> as hmac::Mac>::new_from_slice(key).unwrap();
    hmac::Mac::update(&mut mac, data);
    hmac::Mac::finalize(mac).into_bytes().to_vec()
}

/// `a.ct_eq(b).into()` from the `subtle` crate on byte slices: true exactly
/// when both have the same length and the same bytes.
#[verifier::external_body]
pub fn ct_eq(a: &[u8], b: &[u8]) -> (r: bool)
    ensures
        r == (a@ == b@),
{
    subtle::ConstantTimeEq::ct_eq(a, b).into()
}

/// Value of an ASCII hex digit of either case.
pub open spec fn hex_val(c: u8) -> Option<u8> {
    if 48 <= c <= 57 {
        Some((c - 48) as u8)
    } else if 65 <= c <= 70 {
        Some((c - 55) as u8)
    } else if 97 <= c <= 102 {
        Some((c - 87) as u8)
    } else {
        None
    }
}

/// Hex decoding: an even number of hex digits of either case, two per
/// byte, high nibble first; anything else is refused.
pub open spec fn hex_decoded(b: Seq<u8>) -> Option<Seq<u8>>
    decreases b.len(),
{
    if b.len() % 2 != 0 {
        None
    } else if b.len() == 0 {
        Some(Seq::empty())
    } else {
        match (hex_val(b[0]), hex_val(b[1]), hex_decoded(b.subrange(2, b.len() as int))) {
            (Some(h), Some(l), Some(rest)) => Some(seq![(h * 16 + l) as u8] + rest),
            _ => None,
        }
    }
}

/// `hex::decode(text)` from the `hex` crate: the hex decoding of the text's
/// bytes, `None` on odd length or a non-hex character.
#[verifier::external_body]
pub fn hex_decode(text: &str) -> (out: Option<Vec<u8>>)
    ensures
        match out {
            Some(v) => hex_decoded(text.spec_bytes()) == Some(v@),
            None => hex_decoded(text.spec_bytes()) is None,
        },
{
    hex::decode(text).ok()
}

// ---------------------------------------------------------------------------
// Argon2id
// ---------------------------------------------------------------------------

/// Argon2id (version 0x13) of a password and salt with memory cost `m`
/// KiB, `t` passes, `p` lanes and an output of `len` bytes.
pub uninterp spec fn argon2id(pwd: Seq<u8>, salt: Seq<u8>, m: u32, t: u32, p: u32, len: nat) -> Seq<u8>;

/// Whether the `argon2` crate accepts the parameters and the inputs:
/// `Params::new` wants at least 8 KiB and 8 KiB per lane, one pass, 1 to
/// 2^24 - 1 lanes and an output of 4 to 2^32 - 1 bytes; hashing wants a
/// password under 2^32 bytes and a salt of 8 to 2^32 - 1 bytes.
pub open spec fn argon2_accepts(pwd_len: nat, salt_len: nat, m: u32, t: u32, p: u32, len: nat) -> bool {
    &&& m >= 8 && m >= 8 * p && t >= 1 && 1 <= p <= 0xFFFFFF
    &&& 4 <= len <= 0xFFFFFFFF
    &&& pwd_len <= 0xFFFFFFFF
    &&& 8 <= salt_len <= 0xFFFFFFFF
}

/// `Argon2::new(Argon2id, V0x13, Params::new(m, t, p, Some(len)))` and
/// `hash_password_into(pwd, salt, out)` with a `len`-byte `out`, from the
/// `argon2` crate: the named hash when the crate accepts the parameters and
/// inputs, `None` otherwise.
#[verifier::external_body]
pub fn argon2id_hash(pwd: &[u8], salt: &[u8], m: u32, t: u32, p: u32, len: usize) -> (out: Option<Vec<u8>>)
    requires
        p <= 0xFFFFFF,
    ensures
        out is Some <==> argon2_accepts(pwd@.len(), salt@.len(), m, t, p, len as nat),
        out matches Some(h) ==> h@ == argon2id(pwd@, salt@, m, t, p, len as nat) && h@.len() == len,
{
    let params = match argon2::Params::new(m, t, p, Some(len)) {
        Ok(params) => params,
        Err(_) => return None,
    };
    let a = argon2::Argon2::new(argon2::Algorithm::Argon2id, argon2::Version::V0x13, params);
    let mut out = vec![0u8; len];
    match a.hash_password_into(pwd, salt, &mut out) {
        Ok(()) => Some(out),
        Err(_) => None,
    }
}

/// `SaltString::generate(&mut OsRng)` from the `argon2` crate's
/// `password_hash`: a random 16-byte salt in unpadded B64, a 22-character
/// ASCII string that `SaltString::from_b64` accepts back.  Which salt comes
/// out is left open.
#[verifier::external_body]
pub fn argon2_salt_generate() -> (out: String)
    ensures
        out@.len() == 22,
        forall|i: int| 0 <= i < 22 ==> '\0' <= #[trigger] out@[i] <= '\u{7f}',
        salt_string_valid(out@),
{
    argon2::password_hash::SaltString::generate(&mut rand::rngs::OsRng).as_str().to_string()
}

/// A character of a PHC salt: `[A-Za-z0-9/+.-]`.
pub open spec fn is_salt_char(c: char) -> bool {
    ('A' <= c <= 'Z') || ('a' <= c <= 'z') || ('0' <= c <= '9') || c == '/' || c == '+' || c == '.' || c == '-'
}

/// Whether `SaltString::from_b64` accepts a string: 4 to 64 bytes long,
/// every character a salt character.
pub open spec fn salt_string_valid(s: Seq<char>) -> bool {
    &&& 4 <= encode_utf8(s).len() <= 64
    &&& forall|i: int| 0 <= i < s.len() ==> #[trigger] is_salt_char(s[i])
}

/// `SaltString::from_b64(s)` from the `argon2` crate's `password_hash`:
/// `Some` with the string's bytes when the named check accepts it.
#[verifier::external_body]
pub fn salt_string_from_b64(s: &str) -> (out: Option<Vec<u8>>)
    ensures
        out is Some <==> salt_string_valid(s@),
        out matches Some(b) ==> b@ == s.spec_bytes(),
{
    match argon2::password_hash::SaltString::from_b64(s) {
        Ok(salt) => Some(salt.as_str().as_bytes().to_vec()),
        Err(_) => None,
    }
}

// ---------------------------------------------------------------------------
// ML-KEM-768
// ---------------------------------------------------------------------------

/// Encoded encapsulation key of the ML-KEM-768 key pair of a 64-byte seed.
pub uninterp spec fn mlkem768_ek_of_seed(seed: Seq<u8>) -> Seq<u8>;

/// `DecapsulationKey::<MlKem768>::from_seed(seed).encapsulation_key().to_bytes()`
/// from the `ml-kem` crate: the named 1184-byte key.
#[verifier::external_body]
pub fn mlkem768_ek_from_seed(seed: &[u8]) -> (ek: Vec<u8>)
    requires
        seed@.len() == 64,
    ensures
        ek@ == mlkem768_ek_of_seed(seed@),
        ek@.len() == 1184,
        mlkem768_ek_valid(ek@),
{
    let seed: ml_kem::Seed = ml_kem::array::Array::try_from(seed).unwrap();
    ml_kem::ml_kem_768::DecapsulationKey::from_seed(seed).encapsulation_key().to_bytes().to_vec()
}

/// Whether a 1184-byte string is a valid ML-KEM-768 encapsulation key.
pub uninterp spec fn mlkem768_ek_valid(ek: Seq<u8>) -> bool;

/// ML-KEM-768 encapsulation of the 32-byte message `m` to `ek`:
/// (ciphertext, shared secret).
pub uninterp spec fn mlkem768_encaps(ek: Seq<u8>, m: Seq<u8>) -> (Seq<u8>, Seq<u8>);

/// ML-KEM-768 decapsulation of `ct` with the key pair of a 64-byte seed.
pub uninterp spec fn mlkem768_decaps(seed: Seq<u8>, ct: Seq<u8>) -> Seq<u8>;

/// `EncapsulationKey::<MlKem768>::new(ek)` from the `ml-kem` crate, which
/// checks that the encoded key decodes (every 12-bit coefficient below the
/// modulus): returns the named validity.  The all-zero key decodes.
#[verifier::external_body]
pub fn mlkem768_check_ek(ek: &[u8]) -> (ok: bool)
    requires
        ek@.len() == 1184,
    ensures
        ok == mlkem768_ek_valid(ek@),
        ek@ == Seq::new(1184, |i: int| 0u8) ==> ok,
{
    match ml_kem::array::Array::try_from(ek) {
        Ok(arr) => ml_kem::ml_kem_768::EncapsulationKey::new(&arr).is_ok(),
        Err(_) => false,
    }
}

/// `EncapsulationKey::<MlKem768>::encapsulate_deterministic(m)` from the
/// `ml-kem` crate on a valid key: the named (ciphertext, shared secret), of
/// 1088 and 32 bytes.
#[verifier::external_body]
pub fn mlkem768_encapsulate_with(ek: &[u8], m: &[u8]) -> (out: (Vec<u8>, Vec<u8>))
    requires
        ek@.len() == 1184,
        mlkem768_ek_valid(ek@),
        m@.len() == 32,
    ensures
        (out.0@, out.1@) == mlkem768_encaps(ek@, m@),
        out.0@.len() == 1088,
        out.1@.len() == 32,
{
    let arr = ml_kem::array::Array::try_from(ek).unwrap();
    let key = ml_kem::ml_kem_768::EncapsulationKey::new(&arr).unwrap();
    let m: ml_kem::B32 = ml_kem::array::Array::try_from(m).unwrap();
    let (ct, ss) = key.encapsulate_deterministic(&m);
    (ct.to_vec(), ss.to_vec())
}

/// `DecapsulationKey::<MlKem768>::from_seed(seed).decapsulate(ct)` from the
/// `ml-kem` crate: the named 32-byte shared secret (implicit rejection: a
/// well-sized ciphertext always decapsulates).
#[verifier::external_body]
pub fn mlkem768_decapsulate(seed: &[u8], ct: &[u8]) -> (ss: Vec<u8>)
    requires
        seed@.len() == 64,
        ct@.len() == 1088,
    ensures
        ss@ == mlkem768_decaps(seed@, ct@),
        ss@.len() == 32,
{
    let seed: ml_kem::Seed = ml_kem::array::Array::try_from(seed).unwrap();
    let dk = ml_kem::ml_kem_768::DecapsulationKey::from_seed(seed);
    let ct = ml_kem::array::Array::try_from(ct).unwrap();
    dk.decapsulate(&ct).to_vec()
}

// ---------------------------------------------------------------------------
// X25519
// ---------------------------------------------------------------------------

/// The X25519 public key of a 32-byte secret (clamped as X25519 requires).
pub uninterp spec fn x25519_public_of(secret: Seq<u8>) -> Seq<u8>;

/// The X25519 shared secret of our 32-byte secret and a peer's public key.
pub uninterp spec fn x25519_shared(secret: Seq<u8>, public: Seq<u8>) -> Seq<u8>;

/// The public key of the X25519 secret drawn from a ChaCha12 generator
/// seeded with 32 bytes.
pub uninterp spec fn x25519_seeded_public(seed: Seq<u8>) -> Seq<u8>;

/// `PublicKey::from(&StaticSecret::from(secret)).to_bytes()` from the
/// `x25519-dalek` crate: the named public key.
#[verifier::external_body]
pub fn x25519_public(secret: &[u8; 32]) -> (pk: [u8; 32])
    ensures
        pk@ == x25519_public_of(secret@),
{
    x25519_dalek::PublicKey::from(&x25519_dalek::StaticSecret::from(*secret)).to_bytes()
}

/// `StaticSecret::from(secret).diffie_hellman(&PublicKey::from(public))`
/// from the `x25519-dalek` crate: the named shared secret.
#[verifier::external_body]
pub fn x25519_diffie_hellman(secret: &[u8; 32], public: &[u8; 32]) -> (ss: [u8; 32])
    ensures
        ss@ == x25519_shared(secret@, public@),
{
    x25519_dalek::StaticSecret::from(*secret).diffie_hellman(&x25519_dalek::PublicKey::from(*public)).to_bytes()
}

/// `PublicKey::from(&EphemeralSecret::random_from_rng(&mut StdRng::from_seed(seed)))`
/// from the `x25519-dalek` and `rand` crates: the named public key.
#[verifier::external_body]
pub fn x25519_public_from_rng_seed(seed: &[u8; 32]) -> (pk: [u8; 32])
    ensures
        pk@ == x25519_seeded_public(seed@),
{
    let mut rng = <rand::rngs::StdRng as rand::SeedableRng>::from_seed(*seed);
    x25519_dalek::PublicKey::from(&x25519_dalek::EphemeralSecret::random_from_rng(&mut rng)).to_bytes()
}

// ---------------------------------------------------------------------------
// ML-DSA-87
// ---------------------------------------------------------------------------

/// Encoded verifying key (2592 bytes) of the ML-DSA-87 signing key of a
/// 32-byte seed.
pub uninterp spec fn mldsa87_vk(seed: Seq<u8>) -> Seq<u8>;

/// Encoded deterministic ML-DSA-87 signature (4627 bytes, empty context)
/// of `data` with the signing key of a 32-byte seed.
pub uninterp spec fn mldsa87_signature(seed: Seq<u8>, data: Seq<u8>) -> Seq<u8>;

/// Whether an encoded signature verifies for `data` under an encoded
/// verifying key.
pub uninterp spec fn mldsa87_valid(vk: Seq<u8>, data: Seq<u8>, sig: Seq<u8>) -> bool;

/// `SigningKey::<MlDsa87>::from_seed(seed).verifying_key().encode()` from
/// the `ml-dsa` crate: the named 2592-byte verifying key.
#[verifier::external_body]
pub fn mldsa87_verifying_key_of(seed: &[u8; 32]) -> (vk: Vec<u8>)
    ensures
        vk@ == mldsa87_vk(seed@),
        vk@.len() == 2592,
{
    let seed = ml_dsa::Seed::from(*seed);
    let sk = ml_dsa::SigningKey::<ml_dsa::MlDsa87>::from_seed(&seed);
    ml_dsa::signature::Keypair::verifying_key(&sk).encode().to_vec()
}

/// `Signer::sign(&SigningKey::<MlDsa87>::from_seed(seed), data).encode()`
/// from the `ml-dsa` crate, whose `Signer` is the deterministic variant with
/// an empty context: the named 4627-byte signature.
#[verifier::external_body]
pub fn mldsa87_sign(seed: &[u8; 32], data: &[u8]) -> (sig: Vec<u8>)
    ensures
        sig@ == mldsa87_signature(seed@, data@),
        sig@.len() == 4627,
{
    let seed = ml_dsa::Seed::from(*seed);
    let sk = ml_dsa::SigningKey::<ml_dsa::MlDsa87>::from_seed(&seed);
    ml_dsa::signature::Signer::sign(&sk, data).encode().to_vec()
}

/// `Verifier::verify` of the `ml-dsa` crate on the decoded key and
/// signature (a signature that does not decode does not verify): the named
/// validity.
#[verifier::external_body]
pub fn mldsa87_verify(vk: &[u8], data: &[u8], sig: &[u8]) -> (ok: bool)
    requires
        vk@.len() == 2592,
        sig@.len() == 4627,
    ensures
        ok == mldsa87_valid(vk@, data@, sig@),
{
    let enc_vk = ml_dsa::EncodedVerifyingKey::<ml_dsa::MlDsa87>::try_from(vk).unwrap();
    let vk = ml_dsa::VerifyingKey::<ml_dsa::MlDsa87>::decode(&enc_vk);
    let enc_sig = ml_dsa::EncodedSignature::<ml_dsa::MlDsa87>::try_from(sig).unwrap();
    match ml_dsa::Signature::<ml_dsa::MlDsa87>::decode(&enc_sig) {
        Some(s) => ml_dsa::signature::Verifier::verify(&vk, data, &s).is_ok(),
        None => false,
    }
}

// ---------------------------------------------------------------------------
// Text (std)
// ---------------------------------------------------------------------------

/// Every non-overlapping occurrence of `pat` in `s`, scanning left to right,
/// replaced by `rep`.
pub open spec fn replace_all(s: Seq<char>, pat: Seq<char>, rep: Seq<char>) -> Seq<char>
    decreases s.len(),
{
    if pat.len() == 0 || s.len() < pat.len() {
        s
    } else if s.subrange(0, pat.len() as int) == pat {
        rep + replace_all(s.subrange(pat.len() as int, s.len() as int), pat, rep)
    } else {
        seq![s[0]] + replace_all(s.drop_first(), pat, rep)
    }
}

/// The text with every non-overlapping match of a non-empty pattern, left
/// to right, replaced (what `str::replace(pat, rep)` gives).
pub fn str_replace(s: &str, pat: &str, rep: &str) -> (out: String)
    requires
        pat@.len() > 0,
    ensures
        out@ == replace_all(s@, pat@, rep@),
{
    let n = s.unicode_len();
    let p = pat.unicode_len();
    let mut out = String::new();
    let mut i: usize = 0;
    assert(s@.subrange(0, n as int) =~= s@);
    assert(out@ + replace_all(s@, pat@, rep@) =~= replace_all(s@, pat@, rep@));
    while i < n
        invariant
            n == s@.len(),
            p == pat@.len(),
            p > 0,
            i <= n,
            out@ + replace_all(s@.subrange(i as int, n as int), pat@, rep@) == replace_all(s@, pat@, rep@),
        decreases n - i,
    {
        let ghost t = s@.subrange(i as int, n as int);
        if n - i < p {
            out.append(s.substring_char(i, n));
            assert(replace_all(t, pat@, rep@) == t);
            assert(s@.subrange(n as int, n as int) =~= Seq::<char>::empty());
            assert(replace_all(Seq::<char>::empty(), pat@, rep@) == Seq::<char>::empty());
            assert(out@ + Seq::<char>::empty() =~= out@);
            i = n;
        } else {
            let window = s.substring_char(i, i + p);
            assert(window@ =~= t.subrange(0, p as int));
            let ghost o = out@;
            if crate::text::str_eq(window, pat) {
                out.append(rep);
                let ghost rest = s@.subrange(i + p, n as int);
                assert(t.subrange(p as int, t.len() as int) =~= rest);
                assert(replace_all(t, pat@, rep@) == rep@ + replace_all(rest, pat@, rep@));
                assert((o + rep@) + replace_all(rest, pat@, rep@) =~= o + (rep@ + replace_all(rest, pat@, rep@)));
                i = i + p;
            } else {
                out.append(s.substring_char(i, i + 1));
                let ghost rest = s@.subrange(i + 1, n as int);
                assert(t.drop_first() =~= rest);
                assert(s@.subrange(i as int, i + 1) =~= seq![t[0]]);
                assert(replace_all(t, pat@, rep@) == seq![t[0]] + replace_all(rest, pat@, rep@));
                assert((o + seq![t[0]]) + replace_all(rest, pat@, rep@) =~= o + (seq![t[0]] + replace_all(rest, pat@, rep@)));
                i = i + 1;
            }
        }
    }
    assert(s@.subrange(n as int, n as int) =~= Seq::<char>::empty());
    assert(out@ + Seq::<char>::empty() =~= out@);
    out
}


/// The value of a sequence of ASCII digits.
pub open spec fn digits_value(d: Seq<char>) -> int
    decreases d.len(),
{
    if d.len() == 0 {
        0
    } else {
        digits_value(d.drop_last()) * 10 + (d.last() as int - 48)
    }
}

/// Every character is an ASCII digit.
pub open spec fn all_digits(d: Seq<char>) -> bool {
    forall|i: int| 0 <= i < d.len() ==> '0' <= #[trigger] d[i] <= '9'
}

/// What `str::parse::<u16>` accepts: an optional `+`, then at least one
/// ASCII digit, with a value below 65536.
pub open spec fn parsed_u16(s: Seq<char>) -> Option<u16> {
    let d = if s.len() > 0 && s[0] == '+' { s.drop_first() } else { s };
    if d.len() > 0 && all_digits(d) && digits_value(d) <= 65535 {
        Some(digits_value(d) as u16)
    } else {
        None
    }
}

proof fn lemma_digits_nonneg(d: Seq<char>)
    requires
        all_digits(d),
    ensures
        digits_value(d) >= 0,
    decreases d.len(),
{
    if d.len() > 0 {
        lemma_digits_nonneg(d.drop_last());
    }
}

/// The value of a digit string is at least that of each of its prefixes.
proof fn lemma_digits_prefix(d: Seq<char>, k: int)
    requires
        all_digits(d),
        0 <= k <= d.len(),
    ensures
        digits_value(d.take(k)) <= digits_value(d),
    decreases d.len(),
{
    if k == d.len() {
        assert(d.take(k) =~= d);
    } else {
        assert(d.drop_last().take(k) =~= d.take(k));
        lemma_digits_prefix(d.drop_last(), k);
        lemma_digits_nonneg(d.drop_last());
    }
}

/// The text read as a `u16` (what `str::parse::<u16>` gives): an optional
/// `+`, then at least one ASCII digit, with a value below 65536.
pub fn str_parse_u16(s: &str) -> (out: Option<u16>)
    ensures
        out == parsed_u16(s@),
{
    let n = s.unicode_len();
    let mut start: usize = 0;
    if n > 0 && s.get_char(0) == '+' {
        start = 1;
    }
    let ghost d: Seq<char> = if s@.len() > 0 && s@[0] == '+' { s@.drop_first() } else { s@ };
    assert(d =~= s@.subrange(start as int, n as int));
    if start == n {
        return None;
    }
    let mut v: u32 = 0;
    let mut i: usize = start;
    while i < n
        invariant
            n == s@.len(),
            start < n,
            start <= i <= n,
            d =~= s@.subrange(start as int, n as int),
            d == (if s@.len() > 0 && s@[0] == '+' { s@.drop_first() } else { s@ }),
            all_digits(d.take(i - start)),
            v == digits_value(d.take(i - start)),
            v <= 65535,
        decreases n - i,
    {
        let c = s.get_char(i);
        let ghost k: int = i - start;
        assert(d[k] == c);
        if !('0' <= c && c <= '9') {
            assert(!all_digits(d));
            return None;
        }
        let dv: u32 = (c as u32) - 48;
        proof {
            assert(d.take(k + 1).drop_last() =~= d.take(k));
            assert(d.take(k + 1).last() == c);
            assert(all_digits(d.take(k + 1)));
        }
        let nv: u32 = v * 10 + dv;
        if nv > 65535 {
            proof {
                if all_digits(d) {
                    lemma_digits_prefix(d, k + 1);
                }
            }
            return None;
        }
        v = nv;
        i = i + 1;
    }
    assert(d.take(n - start) =~= d);
    Some(v as u16)
}

} // verus!
