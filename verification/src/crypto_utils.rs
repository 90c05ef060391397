//! Fingerprint and trust-level checks of the OpenPGP utilities.
use vstd::prelude::*;
use vstd::string::StringSliceAdditionalSpecFns;
use crate::identity::{hex_32_to_40, is_hex_32_to_40, remove_spaces, strip_spaces};
use vstd::utf8::{encode_utf8, is_ascii_chars};
use crate::delivery_tokens::lemma_hex_lower_len;
use crate::kyber::{lemma_hex_lower_ascii, lemma_hex_text_bytes};
use crate::primitives::{
    ascii_upper, blake2b_8, blake2b_8_digest, hex_encode, hex_lower, str_to_lowercase, str_without_spaces,
    unicode_lower,
};
use crate::text::{ascii_chars, ascii_string, str_eq};

verus! {

/// Errors of the OpenPGP utilities.
#[derive(Debug, Clone, PartialEq, Eq)]
pub enum CryptoUtilsError {
    OpenPgp(String),
    Io(String),
    InvalidFingerprint(String),
    InvalidTrustLevel(String),
}

/// The bytes with every `0x` removed, scanning left to right.
pub open spec fn strip_0x(b: Seq<u8>) -> Seq<u8>
    decreases b.len(),
{
    if b.len() == 0 {
        Seq::empty()
    } else if b.len() >= 2 && b[0] == 48u8 && b[1] == 120u8 {
        strip_0x(b.subrange(2, b.len() as int))
    } else {
        seq![b[0]] + strip_0x(b.subrange(1, b.len() as int))
    }
}

fn remove_0x(b: &[u8]) -> (r: Vec<u8>)
    ensures
        r@ == strip_0x(b@),
{
    let mut r: Vec<u8> = Vec::new();
    let mut i: usize = 0;
    assert(b@.subrange(0, b@.len() as int) =~= b@);
    assert(r@ + strip_0x(b@) =~= strip_0x(b@));
    while i < b.len()
        invariant
            i <= b@.len(),
            strip_0x(b@) == r@ + strip_0x(b@.subrange(i as int, b@.len() as int)),
        decreases b@.len() - i,
    {
        let ghost rest = b@.subrange(i as int, b@.len() as int);
        if i + 1 < b.len() && b[i] == 48u8 && b[i + 1] == 120u8 {
            assert(rest.subrange(2, rest.len() as int) =~= b@.subrange(i + 2, b@.len() as int));
            i = i + 2;
        } else {
            assert(rest.subrange(1, rest.len() as int) =~= b@.subrange(i + 1, b@.len() as int));
            let ghost before = r@;
            r.push(b[i]);
            assert(r@ =~= before + seq![b@[i as int]]);
            i = i + 1;
        }
    }
    assert(b@.subrange(i as int, b@.len() as int) =~= Seq::<u8>::empty());
    assert(r@ + Seq::<u8>::empty() =~= r@);
    r
}

/// A fingerprint is accepted when, spaces and `0x` removed, it is 32 to 40
/// hex digits.
pub open spec fn utils_fingerprint_valid(fp: Seq<u8>) -> bool {
    hex_32_to_40(strip_0x(strip_spaces(fp)))
}

/// Check a GPG fingerprint (v3 or v4): spaces and `0x` prefixes removed,
/// 32 to 40 hex digits.
pub fn validate_fingerprint(fp: &str) -> (r: bool)
    ensures
        r == utils_fingerprint_valid(fp.spec_bytes()),
{
    let no_spaces = remove_spaces(fp.as_bytes());
    let cleaned = remove_0x(no_spaces.as_slice());
    is_hex_32_to_40(cleaned.as_slice())
}

/// The trust levels that can be recorded.
pub open spec fn trust_level_known(level: Seq<char>) -> bool {
    level == "ultimate"@ || level == "marginal"@ || level == "never"@ || level == "unknown"@
}

/// The checks made before a trust level is recorded for a key: the
/// fingerprint must be valid, then the trust level one of `ultimate`,
/// `marginal`, `never`, `unknown`.
pub fn check_key_trust(fingerprint: &str, trust_level: &str) -> (r: Result<(), CryptoUtilsError>)
    ensures
        !utils_fingerprint_valid(fingerprint.spec_bytes()) ==> (r matches Err(CryptoUtilsError::InvalidFingerprint(f))
            && f@ == fingerprint@),
        utils_fingerprint_valid(fingerprint.spec_bytes()) && !trust_level_known(trust_level@) ==> (r matches Err(
            CryptoUtilsError::InvalidTrustLevel(t),
        ) && t@ == trust_level@),
        utils_fingerprint_valid(fingerprint.spec_bytes()) && trust_level_known(trust_level@) ==> r is Ok,
{
    if !validate_fingerprint(fingerprint) {
        return Err(CryptoUtilsError::InvalidFingerprint(fingerprint.to_string()));
    }
    if str_eq(trust_level, "ultimate") || str_eq(trust_level, "marginal") || str_eq(trust_level, "never")
        || str_eq(trust_level, "unknown") {
        Ok(())
    } else {
        Err(CryptoUtilsError::InvalidTrustLevel(trust_level.to_string()))
    }
}

/// The Null ID of a fingerprint: spaces removed, lower-cased, BLAKE2b with
/// an 8-byte output in hex, and the first eight hex digits upper-cased as
/// `NN-XXXX-XXXX`.
pub open spec fn null_id_of_fingerprint(fp: Seq<char>) -> Seq<char> {
    let h = hex_lower(blake2b_8(encode_utf8(unicode_lower(fp.filter(|c: char| c != ' ')))));
    "NN-"@ + h.subrange(0, 4).map_values(|c: char| ascii_upper(c)) + "-"@ + h.subrange(4, 8).map_values(
        |c: char| ascii_upper(c),
    )
}

/// Which hex digit stands at position `j` of a Null ID.
spec fn nid_hex_pos(j: int) -> int {
    if j < 7 {
        j - 3
    } else {
        j - 4
    }
}

/// Derive the Null ID (`NN-XXXX-XXXX`) of an OpenPGP fingerprint.
pub fn null_id_from_fingerprint(fp: &str) -> (r: String)
    ensures
        r@ == null_id_of_fingerprint(fp@),
{
    let cleaned = str_without_spaces(fp);
    let lower = str_to_lowercase(cleaned.as_str());
    let digest = blake2b_8_digest(lower.as_str().as_bytes());
    let hex = hex_encode(digest.as_slice());
    let ghost h = hex_lower(digest@);
    proof {
        lemma_hex_text_bytes(digest@);
        lemma_hex_lower_len(digest@);
        lemma_hex_lower_ascii(digest@);
    }
    let hb = hex.as_str().as_bytes();
    let mut out: Vec<u8> = Vec::new();
    out.push(78u8);
    out.push(78u8);
    out.push(45u8);
    let mut i: usize = 0;
    while i < 9
        invariant
            i <= 9,
            hb@ == h.map_values(|c: char| c as u8),
            h.len() == 16,
            is_ascii_chars(h),
            out@.len() == 3 + i,
            out@[0] == 78u8 && out@[1] == 78u8 && out@[2] == 45u8,
            forall|j: int| 3 <= j < 3 + i ==> (#[trigger] out@[j]) < 128,
            forall|j: int| 3 <= j < 3 + i && j != 7 ==> ((#[trigger] out@[j]) as char) == ascii_upper(h[nid_hex_pos(j)]),
            i > 4 ==> out@[7] == 45u8,
        decreases 9 - i,
    {
        if i == 4 {
            out.push(45u8);
        } else {
            let k = if i < 4 { i } else { i - 1 };
            let c = hb[k];
            proof {
                assert(h[k as int] <= '\u{7f}');
                assert(c == h[k as int] as u8);
            }
            let u = if 97 <= c && c <= 122 { c - 32 } else { c };
            out.push(u);
        }
        i = i + 1;
    }
    proof {
        reveal_strlit("NN-");
        reveal_strlit("-");
        let target = null_id_of_fingerprint(fp@);
        assert(target.len() == 12);
        assert(lower@ == unicode_lower(fp@.filter(|c: char| c != ' ')));
        assert(ascii_chars(out@) =~= target) by {
            assert forall|j: int| 0 <= j < 12 implies ascii_chars(out@)[j] == target[j] by {
                if j >= 3 && j != 7 {
                    assert((out@[j] as char) == ascii_upper(h[nid_hex_pos(j)]));
                    if j < 7 {
                        assert(target[j] == h.subrange(0, 4).map_values(|c: char| ascii_upper(c))[j - 3]);
                    } else {
                        assert(target[j] == h.subrange(4, 8).map_values(|c: char| ascii_upper(c))[j - 8]);
                    }
                }
            }
        }
    }
    ascii_string(out)
}

} // verus!
