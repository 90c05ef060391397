//! Identity formats: OpenPGP fingerprints and the short `NN-XXXX-XXXX`
//! Null IDs derived from them.
use vstd::prelude::*;
use vstd::string::StringSliceAdditionalSpecFns;
use vstd::utf8::{encode_utf8, is_ascii_chars, is_ascii_chars_encode_utf8};
use crate::error::CryptoError;
use crate::primitives::{
    base64_data_len, base64_encode, base64_std_encode, blake2b_8, blake2b_8_digest, is_base64_char, str_to_uppercase,
    str_without_spaces, unicode_upper,
};
use crate::text::{all_ascii, ascii_chars, ascii_string, str_eq};

verus! {

/// An ASCII hex digit.
pub open spec fn is_hex_byte(b: u8) -> bool {
    (48 <= b <= 57) || (65 <= b <= 70) || (97 <= b <= 102)
}

/// The bytes with every space removed.
pub open spec fn strip_spaces(b: Seq<u8>) -> Seq<u8>
    decreases b.len(),
{
    if b.len() == 0 {
        Seq::empty()
    } else if b.last() == 32u8 {
        strip_spaces(b.drop_last())
    } else {
        strip_spaces(b.drop_last()).push(b.last())
    }
}

/// 32 to 40 hex digits.
pub open spec fn hex_32_to_40(c: Seq<u8>) -> bool {
    32 <= c.len() <= 40 && forall|i: int| 0 <= i < c.len() ==> is_hex_byte(#[trigger] c[i])
}

/// A fingerprint is valid when, spaces removed and upper-cased (Unicode
/// rules), its UTF-8 form is 32 to 40 hex digits.
pub open spec fn fingerprint_valid(fp: Seq<char>) -> bool {
    hex_32_to_40(encode_utf8(unicode_upper(fp.filter(|c: char| c != ' '))))
}

/// The bytes with every space removed.
pub fn remove_spaces(b: &[u8]) -> (r: Vec<u8>)
    ensures
        r@ == strip_spaces(b@),
{
    let mut r: Vec<u8> = Vec::new();
    for i in 0..b.len()
        invariant
            r@ == strip_spaces(b@.subrange(0, i as int)),
    {
        assert(b@.subrange(0, i + 1).drop_last() =~= b@.subrange(0, i as int));
        if b[i] != 32u8 {
            r.push(b[i]);
        }
    }
    assert(b@.subrange(0, b@.len() as int) =~= b@);
    r
}

/// Whether the bytes are 32 to 40 hex digits.
pub fn is_hex_32_to_40(c: &[u8]) -> (r: bool)
    ensures
        r == hex_32_to_40(c@),
{
    if c.len() < 32 || c.len() > 40 {
        return false;
    }
    for i in 0..c.len()
        invariant
            forall|j: int| 0 <= j < i ==> is_hex_byte(#[trigger] c@[j]),
    {
        let x = c[i];
        if !((48 <= x && x <= 57) || (65 <= x && x <= 70) || (97 <= x && x <= 102)) {
            return false;
        }
    }
    true
}

/// Check an OpenPGP fingerprint: spaces removed and upper-cased, 32 to 40
/// hex digits.
pub fn validate_fingerprint(fp: &str) -> (r: Result<(), CryptoError>)
    ensures
        r is Ok <==> fingerprint_valid(fp@),
        r matches Err(e) ==> e matches CryptoError::InvalidFingerprint(_),
{
    let spaceless = str_without_spaces(fp);
    let upper = str_to_uppercase(spaceless.as_str());
    let cleaned = upper.as_str().as_bytes();
    if cleaned.len() < 32 || cleaned.len() > 40 {
        return Err(CryptoError::InvalidFingerprint("fingerprint must be 32-40 hex chars".to_string()));
    }
    if !is_hex_32_to_40(cleaned) {
        return Err(CryptoError::InvalidFingerprint("fingerprint contains non-hex characters".to_string()));
    }
    Ok(())
}

/// A Null ID has the shape `NN-XXXX-XXXX`: split at `-` it has exactly
/// three parts, the first `NN` and the other two four bytes each.
pub open spec fn null_id_shape(b: Seq<u8>) -> bool {
    &&& b.len() == 12
    &&& b[0] == 78u8 && b[1] == 78u8 && b[2] == 45u8 && b[7] == 45u8
    &&& forall|i: int| (3 <= i < 7 || 8 <= i < 12) ==> #[trigger] b[i] != 45u8
}

/// Check the `NN-XXXX-XXXX` shape of a Null ID.
pub fn validate_null_id(nid: &str) -> (r: Result<(), CryptoError>)
    ensures
        r is Ok <==> null_id_shape(nid.spec_bytes()),
        r matches Err(e) ==> e matches CryptoError::InvalidFingerprint(_),
{
    let b = nid.as_bytes();
    if b.len() != 12 || b[0] != 78u8 || b[1] != 78u8 || b[2] != 45u8 || b[7] != 45u8 {
        return Err(CryptoError::InvalidFingerprint("null ID must be NN-XXXX-XXXX format".to_string()));
    }
    for i in 3..12
        invariant
            b@ == nid.spec_bytes(),
            b@.len() == 12,
            forall|j: int| 3 <= j < i && j != 7 ==> #[trigger] b@[j] != 45u8,
    {
        if i != 7 && b[i] == 45u8 {
            return Err(CryptoError::InvalidFingerprint("null ID must be NN-XXXX-XXXX format".to_string()));
        }
    }
    Ok(())
}

/// The Null ID of a fingerprint: the first eight characters of the base64
/// of its 8-byte BLAKE2b digest, as `NN-` and two groups of four.
pub open spec fn null_id_of(fp: Seq<u8>) -> Seq<char> {
    let e = base64_std_encode(blake2b_8(fp));
    "NN-"@ + e.subrange(0, 4) + "-"@ + e.subrange(4, 8)
}

/// How a Null ID reads its digest: `NN-`, the first four characters of the
/// base64 of the fingerprint's 8-byte BLAKE2b digest, `-`, then the next
/// four (characters 4 to 8), so both groups come from different parts of
/// the digest.  (The base64 of 8 bytes has 12 characters.)
pub proof fn law_null_id_groups(fp: Seq<u8>)
    requires
        base64_std_encode(blake2b_8(fp)).len() >= 8,
    ensures
        null_id_of(fp).len() == 12,
        null_id_of(fp)[0] == 'N' && null_id_of(fp)[1] == 'N' && null_id_of(fp)[2] == '-' && null_id_of(fp)[7] == '-',
        forall|j: int| 0 <= j < 4 ==> #[trigger] null_id_of(fp)[3 + j] == base64_std_encode(blake2b_8(fp))[j],
        forall|j: int| 0 <= j < 4 ==> #[trigger] null_id_of(fp)[8 + j] == base64_std_encode(blake2b_8(fp))[4 + j],
{
    reveal_strlit("NN-");
    reveal_strlit("-");
}

/// Derive the Null ID of a fingerprint.
pub fn null_id(fingerprint: &str) -> (r: String)
    ensures
        r@ == null_id_of(fingerprint.spec_bytes()),
{
    let digest = blake2b_8_digest(fingerprint.as_bytes());
    let enc = base64_encode(digest.as_slice());
    let es = enc.as_str();
    proof {
        assert(base64_data_len(8) == 11);
        assert(is_ascii_chars(es@)) by {
            assert forall|i: int| 0 <= i < es@.len() implies '\0' <= #[trigger] es@[i] <= '\u{7f}' by {
                if i < 11 {
                    assert(is_base64_char(es@[i]));
                }
            }
        }
        is_ascii_chars_encode_utf8(es@);
    }
    let eb = es.as_bytes();
    assert(eb@.len() == 12);
    assert forall|j: int| 0 <= j < 12 implies #[trigger] eb@[j] < 128 by {
        assert(es@[j] as u8 == eb@[j]);
    }
    let mut out: Vec<u8> = Vec::new();
    out.push(78u8);
    out.push(78u8);
    out.push(45u8);
    for i in 0..4
        invariant
            eb@ == encode_utf8(es@),
            es@.len() == 12,
            eb@.len() == 12,
            forall|j: int| 0 <= j < 12 ==> #[trigger] eb@[j] < 128,
            out@.len() == 3 + i,
            forall|j: int| 0 <= j < 3 + i ==> #[trigger] out@[j] < 128,
            out@.subrange(0, 3) == seq![78u8, 78u8, 45u8],
            forall|j: int| 0 <= j < i ==> out@[3 + j] == eb@[j],
    {
        out.push(eb[i]);
    }
    out.push(45u8);
    for i in 4..8
        invariant
            eb@ == encode_utf8(es@),
            es@.len() == 12,
            eb@.len() == 12,
            forall|j: int| 0 <= j < 12 ==> #[trigger] eb@[j] < 128,
            out@.len() == 4 + i,
            forall|j: int| 0 <= j < 4 + i ==> #[trigger] out@[j] < 128,
            out@.subrange(0, 3) == seq![78u8, 78u8, 45u8],
            forall|j: int| 0 <= j < 4 ==> out@[3 + j] == eb@[j],
            out@[7] == 45u8,
            forall|j: int| 4 <= j < i ==> out@[4 + j] == eb@[j],
    {
        out.push(eb[i]);
    }
    let ghost ob = out@;
    let s = ascii_string(out);
    proof {
        reveal_strlit("NN-");
        reveal_strlit("-");
        assert(s@ =~= null_id_of(fingerprint.spec_bytes())) by {
            assert forall|j: int| 0 <= j < 12 implies s@[j] == null_id_of(fingerprint.spec_bytes())[j] by {
                if 3 <= j < 7 {
                    assert(ob[j] == eb@[j - 3]);
                } else if 8 <= j < 12 {
                    assert(ob[j] == eb@[j - 4]);
                }
            }
        }
    }
    s
}

/// Check a Null ID against a fingerprint: both must be well formed and the
/// Null ID must be the one derived from the fingerprint.
pub fn validate_null_id_strict(nid: &str, fingerprint: &str) -> (r: Result<(), CryptoError>)
    ensures
        r is Ok <==> null_id_shape(nid.spec_bytes()) && fingerprint_valid(fingerprint@) && nid@
            == null_id_of(fingerprint.spec_bytes()),
        r matches Err(e) ==> e matches CryptoError::InvalidFingerprint(_),
{
    match validate_null_id(nid) {
        Ok(()) => {},
        Err(e) => return Err(e),
    }
    match validate_fingerprint(fingerprint) {
        Ok(()) => {},
        Err(e) => return Err(e),
    }
    let expected = null_id(fingerprint);
    if !str_eq(nid, expected.as_str()) {
        return Err(CryptoError::InvalidFingerprint("null ID does not match fingerprint-derived ID".to_string()));
    }
    Ok(())
}

} // verus!
