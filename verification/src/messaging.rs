//! Client-side message helpers: public-service recognition, recipient
//! aliases, relay routing tags, cert-store keys, size-bucket padding,
//! safety numbers and listener addresses.
use vstd::prelude::*;
use vstd::slice::slice_to_vec;
use vstd::string::{StringExecFns, StringSliceAdditionalSpecFns};
use vstd::utf8::{
    decode_utf8, encode_utf8, is_ascii_chars, is_char_boundary, is_char_boundary_iff_not_is_continuation_byte,
    is_char_boundary_start_end_of_seq, length_of_first_scalar, pop_first_scalar, valid_utf8,
};
use crate::identity::{null_id, null_id_of};
use crate::kyber::{lemma_hex_lower_ascii, lemma_hex_text_bytes};
use crate::delivery_tokens::{law_hex_roundtrip, lemma_hex_lower_len};
use crate::primitives::{
    hex_decode, hex_decoded, hex_digit, hex_encode, hex_lower, hmac_sha256, hmac_sha256_tag, random_bytes, sha256,
    parsed_u16, replace_all, sha256_digest, str_parse_u16, str_replace, str_to_uppercase, string_from_utf8_lossy,
    unicode_upper, utf8_lossy,
};
use crate::text::{
    after_last_ascii, all_ascii, ascii_chars, ascii_string, decimal, decimal_bytes, decimal_string, last_index,
    lemma_ascii_prefix_boundary, push_decimal, str_eq,
};

verus! {

broadcast use vstd::seq_lib::group_seq_properties;

/// Null ID of the public reflector service.
pub open spec fn reflector_null_id() -> Seq<char> {
    "NN-1ae2-e797-1e6b-fff8-9e79-f936-0627-d10f"@
}

/// Fingerprint of the public reflector service.
pub open spec fn reflector_fingerprint() -> Seq<char> {
    "3957378550B111F2678DC1B4A58C27B22091D5CF"@
}

/// Whether a fingerprint belongs to a well-known public service (the
/// allow-list holds the reflector).
pub fn is_public_service_fingerprint(fp: &str) -> (r: bool)
    ensures
        r == (fp@ == reflector_fingerprint()),
{
    str_eq(fp, "3957378550B111F2678DC1B4A58C27B22091D5CF")
}

/// Whether a Null ID is the public reflector's.
pub fn is_public_service(null_id: &str) -> (r: bool)
    ensures
        r == (null_id@ == reflector_null_id()),
{
    str_eq(null_id, "NN-1ae2-e797-1e6b-fff8-9e79-f936-0627-d10f")
}

/// The value of the first alias entry named `name`.
pub open spec fn alias_of(aliases: Seq<(String, String)>, name: Seq<char>) -> Option<Seq<char>>
    decreases aliases.len(),
{
    if aliases.len() == 0 {
        None
    } else if aliases[0].0@ == name {
        Some(aliases[0].1@)
    } else {
        alias_of(aliases.drop_first(), name)
    }
}

/// Resolve a recipient: the Null ID an alias maps to, or the input itself.
pub fn resolve_recipient(input: &str, aliases: &[(String, String)]) -> (r: String)
    ensures
        r@ == (match alias_of(aliases@, input@) {
            Some(v) => v,
            None => input@,
        }),
{
    let mut i: usize = 0;
    assert(aliases@.subrange(0, aliases@.len() as int) =~= aliases@);
    while i < aliases.len()
        invariant
            i <= aliases@.len(),
            alias_of(aliases@, input@) == alias_of(aliases@.subrange(i as int, aliases@.len() as int), input@),
        decreases aliases@.len() - i,
    {
        let ghost rest = aliases@.subrange(i as int, aliases@.len() as int);
        assert(rest[0] == aliases@[i as int]);
        if str_eq(aliases[i].0.as_str(), input) {
            return aliases[i].1.clone();
        }
        assert(rest.drop_first() =~= aliases@.subrange(i + 1, aliases@.len() as int));
        i = i + 1;
    }
    input.to_string()
}

/// What a relay routing tag authenticates: the Null ID, `|`, and the hour
/// number in decimal.
pub open spec fn routing_tag_input(recipient_nid: Seq<char>, now_secs: u64) -> Seq<u8> {
    encode_utf8(recipient_nid) + seq![124u8] + decimal_bytes((now_secs / 3600) as nat)
}

/// The hourly relay routing tag for a Null ID under a shared secret:
/// lower-case hex of HMAC-SHA256 over the Null ID, `|` and the hour
/// number; none without a secret.
pub fn routing_tag(secret: &str, recipient_nid: &str, now_secs: u64) -> (r: Option<String>)
    ensures
        secret@.len() == 0 ==> r is None,
        secret@.len() > 0 ==> (r matches Some(t) && t@ == hex_lower(
            hmac_sha256(secret.spec_bytes(), routing_tag_input(recipient_nid@, now_secs)),
        )),
{
    if secret.is_empty() {
        return None;
    }
    let mut data: Vec<u8> = slice_to_vec(recipient_nid.as_bytes());
    data.push(124u8);
    push_decimal(&mut data, now_secs / 3600);
    assert(data@ == routing_tag_input(recipient_nid@, now_secs));
    let tag = hmac_sha256_tag(secret.as_bytes(), data.as_slice());
    Some(hex_encode(tag.as_slice()))
}

/// Lower-case hex SHA-256 of some bytes.
pub fn sha256_hex(data: &[u8]) -> (r: String)
    ensures
        r@ == hex_lower(sha256(data@)),
{
    let digest = sha256_digest(data);
    hex_encode(digest.as_slice())
}

/// The cert-store key of a fingerprint: `cert:` and the hex SHA-256 of it.
pub fn cert_blob_key(fingerprint: &str) -> (r: String)
    ensures
        r@ == "cert:"@ + hex_lower(sha256(fingerprint.spec_bytes())),
{
    let h = sha256_hex(fingerprint.as_bytes());
    String::from_str("cert:").concat(h.as_str())
}

/// The padding bucket of a message of `msg_len` bytes: the smallest of
/// 256, 512, ..., 65536 that holds the message and the header byte (65536
/// for anything longer).
pub open spec fn bucket_size(msg_len: nat) -> nat {
    let t = msg_len + 1;
    if t <= 256 {
        256
    } else if t <= 512 {
        512
    } else if t <= 1024 {
        1024
    } else if t <= 2048 {
        2048
    } else if t <= 4096 {
        4096
    } else if t <= 8192 {
        8192
    } else if t <= 16384 {
        16384
    } else if t <= 32768 {
        32768
    } else {
        65536
    }
}

/// Whether `b` is 256 times a power of two.
pub open spec fn is_bucket_power(b: nat) -> bool
    decreases b,
{
    if b <= 256 {
        b == 256
    } else {
        b % 2 == 0 && is_bucket_power(b / 2)
    }
}

/// The bucket of a message is the smallest size that holds it: a power of
/// two from 256 to 65536 with room for the message and its header byte,
/// whose half (when above 256) would not.
pub proof fn law_bucket_is_smallest_fit(n: nat)
    requires
        n + 1 <= 65536,
    ensures
        n + 1 <= bucket_size(n) <= 65536,
        is_bucket_power(bucket_size(n)),
        bucket_size(n) > 256 ==> bucket_size(n) / 2 < n + 1,
{
    reveal_with_fuel(is_bucket_power, 10);
}

/// How many padding bytes a message of `msg_len` bytes gets.
pub open spec fn pad_len(msg_len: nat) -> int {
    bucket_size(msg_len) - msg_len - 1
}

/// The padded form: the padding length as a single byte (its low eight
/// bits), the message, the padding.
pub open spec fn padded(msg: Seq<u8>, padding: Seq<u8>) -> Seq<u8> {
    seq![(padding.len() % 256) as u8] + msg + padding
}

/// Pad a message to its bucket with the given padding bytes and hex-encode
/// the result.
pub fn pad_message_with(message: &str, padding: &[u8]) -> (r: String)
    requires
        message.spec_bytes().len() <= 65535,
        padding@.len() == pad_len(message.spec_bytes().len()),
    ensures
        r@ == hex_lower(padded(message.spec_bytes(), padding@)),
        hex_decoded(encode_utf8(r@)) == Some(padded(message.spec_bytes(), padding@)),
        padded(message.spec_bytes(), padding@).len() == bucket_size(message.spec_bytes().len()),
{
    let mb = message.as_bytes();
    let pl = padding.len();
    let mut result: Vec<u8> = Vec::new();
    result.push((pl % 256) as u8);
    result.extend_from_slice(mb);
    result.extend_from_slice(padding);
    assert(result@ =~= padded(message.spec_bytes(), padding@));
    proof {
        lemma_hex_text_bytes(result@);
        law_hex_roundtrip(result@);
    }
    hex_encode(result.as_slice())
}

/// The number of padding bytes for a message of `msg_len` bytes.
fn padding_length(msg_len: usize) -> (n: usize)
    requires
        msg_len <= 65535,
    ensures
        n == pad_len(msg_len as nat),
{
    let total = msg_len + 1;
    let bucket: usize = if total <= 256 {
        256
    } else if total <= 512 {
        512
    } else if total <= 1024 {
        1024
    } else if total <= 2048 {
        2048
    } else if total <= 4096 {
        4096
    } else if total <= 8192 {
        8192
    } else if total <= 16384 {
        16384
    } else if total <= 32768 {
        32768
    } else {
        65536
    };
    bucket - msg_len - 1
}

/// Pad a message to its size bucket with random bytes and hex-encode it.
/// The header byte carries the padding length only below 256 padding
/// bytes; only there does unpadding give the message back.
pub fn pad_message_bucket(message: &str) -> (r: String)
    requires
        message.spec_bytes().len() <= 65535,
    ensures
        exists|p: Seq<u8>| p.len() == pad_len(message.spec_bytes().len()) && r@ == hex_lower(
            #[trigger] padded(message.spec_bytes(), p),
        ),
        pad_len(message.spec_bytes().len()) < 256 ==> unpad_outcome(r@) == Ok::<Seq<char>, PadError>(message@),
{
    let n = padding_length(message.len());
    let padding = random_bytes(n);
    let r = pad_message_with(message, padding.as_slice());
    proof {
        if n < 256 {
            law_pad_unpad_roundtrip(message@, padding@);
        }
    }
    assert(padding@.len() == pad_len(message.spec_bytes().len()) && r@ == hex_lower(padded(message.spec_bytes(), padding@)));
    r
}

/// Why a padded message was refused.
#[derive(Debug, Clone, Copy, PartialEq, Eq, Structural)]
pub enum PadError {
    InvalidHex,
    Empty,
    InvalidPaddingLength,
}

/// Text of some bytes: decoded when valid UTF-8, otherwise with
/// replacement characters.
pub open spec fn lossy_text(b: Seq<u8>) -> Seq<char> {
    if valid_utf8(b) {
        decode_utf8(b)
    } else {
        utf8_lossy(b)
    }
}

/// The padding length a padded form announces in its header byte.
pub open spec fn header_len(d: Seq<u8>) -> int {
    d[0] as int
}

/// What unpadding a hex text gives.
pub open spec fn unpad_outcome(text: Seq<char>) -> Result<Seq<char>, PadError> {
    match hex_decoded(encode_utf8(text)) {
        None => Err(PadError::InvalidHex),
        Some(d) => if d.len() == 0 {
            Err(PadError::Empty)
        } else if d.len() < header_len(d) + 1 {
            Err(PadError::InvalidPaddingLength)
        } else {
            Ok(lossy_text(d.subrange(1, d.len() - header_len(d))))
        },
    }
}

/// Strip the bucket padding: hex-decode, read the padding length from the
/// header byte, and keep the bytes between the header and the padding.
pub fn unpad_message_bucket(padded_hex: &str) -> (r: Result<String, PadError>)
    ensures
        match unpad_outcome(padded_hex@) {
            Ok(t) => r matches Ok(s) && s@ == t,
            Err(e) => r == Err::<String, PadError>(e),
        },
{
    let data = match hex_decode(padded_hex) {
        Some(d) => d,
        None => return Err(PadError::InvalidHex),
    };
    if data.len() == 0 {
        return Err(PadError::Empty);
    }
    let pad = data[0] as usize;
    if data.len() < pad + 1 {
        return Err(PadError::InvalidPaddingLength);
    }
    let end = data.len() - pad;
    let msg = &data.as_slice()[1..end];
    Ok(string_from_utf8_lossy(msg))
}

/// Unpadding undoes padding: a message comes back from its padded form,
/// whatever the padding bytes, whenever the padding is shorter than 256
/// bytes (the header byte holds the padding length only modulo 256).
pub proof fn law_pad_unpad_roundtrip(msg: Seq<char>, padding: Seq<u8>)
    requires
        encode_utf8(msg).len() <= 65535,
        padding.len() == pad_len(encode_utf8(msg).len()),
        padding.len() < 256,
    ensures
        unpad_outcome(hex_lower(padded(encode_utf8(msg), padding))) == Ok::<Seq<char>, PadError>(msg),
{
    let b = padded(encode_utf8(msg), padding);
    lemma_hex_text_bytes(b);
    law_hex_roundtrip(b);
    let n = padding.len();
    assert(b[0] == (n % 256) as u8);
    assert(header_len(b) == n);
    assert(b.subrange(1, b.len() - header_len(b)) =~= encode_utf8(msg));
    vstd::utf8::encode_utf8_valid_utf8(msg);
    vstd::utf8::encode_utf8_decode_utf8(msg);
}

/// Lexicographic `a < b` on bytes (a proper prefix is smaller).
pub open spec fn bytes_lt(a: Seq<u8>, b: Seq<u8>) -> bool
    decreases a.len(),
{
    if a.len() == 0 {
        b.len() > 0
    } else if b.len() == 0 {
        false
    } else if a[0] != b[0] {
        a[0] < b[0]
    } else {
        bytes_lt(a.drop_first(), b.drop_first())
    }
}

/// Lexicographic comparison of byte strings.
fn bytes_less(a: &[u8], b: &[u8]) -> (r: bool)
    ensures
        r == bytes_lt(a@, b@),
{
    let mut i: usize = 0;
    assert(a@.subrange(0, a@.len() as int) =~= a@);
    assert(b@.subrange(0, b@.len() as int) =~= b@);
    while i < a.len() && i < b.len()
        invariant
            i <= a@.len(),
            i <= b@.len(),
            bytes_lt(a@, b@) == bytes_lt(a@.subrange(i as int, a@.len() as int), b@.subrange(i as int, b@.len() as int)),
        decreases a@.len() - i,
    {
        let ghost sa = a@.subrange(i as int, a@.len() as int);
        let ghost sb = b@.subrange(i as int, b@.len() as int);
        assert(sa[0] == a@[i as int] && sb[0] == b@[i as int]);
        if a[i] != b[i] {
            return a[i] < b[i];
        }
        assert(sa.drop_first() =~= a@.subrange(i + 1, a@.len() as int));
        assert(sb.drop_first() =~= b@.subrange(i + 1, b@.len() as int));
        i = i + 1;
    }
    proof {
        let sa = a@.subrange(i as int, a@.len() as int);
        let sb = b@.subrange(i as int, b@.len() as int);
        assert(sa.len() == 0 || sb.len() == 0);
    }
    i < b.len()
}

/// A lower-case hex digit.
pub open spec fn is_lower_hex_char(c: char) -> bool {
    ('0' <= c <= '9') || ('a' <= c <= 'f')
}

/// Every character of a lower-case hex encoding is a lower-case hex digit.
pub proof fn lemma_hex_lower_digits(b: Seq<u8>)
    ensures
        forall|i: int| 0 <= i < hex_lower(b).len() ==> is_lower_hex_char(#[trigger] hex_lower(b)[i]),
    decreases b.len(),
{
    if b.len() > 0 {
        lemma_hex_lower_digits(b.drop_first());
        let h = hex_lower(b);
        let rest = hex_lower(b.drop_first());
        assert(h == seq![hex_digit(b[0] / 16), hex_digit(b[0] % 16)] + rest);
        assert forall|i: int| 0 <= i < h.len() implies is_lower_hex_char(#[trigger] h[i]) by {
            if i >= 2 {
                assert(h[i] == rest[i - 2]);
            }
        }
    }
}

/// The safety-number format: eight groups of eight lower-case hex digits
/// separated by single spaces.
pub open spec fn is_safety_number_format(s: Seq<char>) -> bool {
    &&& s.len() == 71
    &&& forall|i: int| 0 <= i < 71 ==> if i % 9 == 8 { s[i] == ' ' } else { is_lower_hex_char(#[trigger] s[i]) }
}

/// A 64-digit hex digest shown as eight groups of eight, space-separated.
pub open spec fn grouped_digits(h: Seq<char>) -> Seq<char> {
    Seq::new(71, |i: int| if i % 9 == 8 { ' ' } else { h[i - i / 9] })
}

/// The safety number of two fingerprints: both upper-cased and put in
/// order, joined with `|`, hashed with SHA-256, shown as grouped hex.
pub open spec fn safety_number_of(fp1: Seq<char>, fp2: Seq<char>) -> Seq<char> {
    let u1 = unicode_upper(fp1);
    let u2 = unicode_upper(fp2);
    let swap = bytes_lt(encode_utf8(u2), encode_utf8(u1));
    let lo = if swap { u2 } else { u1 };
    let hi = if swap { u1 } else { u2 };
    grouped_digits(hex_lower(sha256(encode_utf8(lo + "|"@ + hi))))
}

/// The safety number two parties compare out of band; it does not depend on
/// the order of the fingerprints.
pub fn safety_number(fp1: &str, fp2: &str) -> (r: String)
    ensures
        r@ == safety_number_of(fp1@, fp2@),
        is_safety_number_format(r@),
{
    let u1 = str_to_uppercase(fp1);
    let u2 = str_to_uppercase(fp2);
    let swap = bytes_less(u2.as_str().as_bytes(), u1.as_str().as_bytes());
    let (lo, hi) = if swap { (u2, u1) } else { (u1, u2) };
    let combined = lo.concat("|").concat(hi.as_str());
    let digest = sha256_digest(combined.as_str().as_bytes());
    let hash = hex_encode(digest.as_slice());
    let ghost h = hex_lower(sha256(encode_utf8(combined@)));
    proof {
        lemma_hex_text_bytes(digest@);
        lemma_hex_lower_len(digest@);
        lemma_hex_lower_ascii(digest@);
        lemma_hex_lower_digits(digest@);
    }
    let hb = hash.as_str().as_bytes();
    assert(hb@.len() == 64);
    let mut out: Vec<u8> = Vec::new();
    let mut i: usize = 0;
    while i < 71
        invariant
            i <= 71,
            out@.len() == i,
            hb@.len() == 64,
            hb@ == h.map_values(|c: char| c as u8),
            h.len() == 64,
            is_ascii_chars(h),
            forall|j: int| 0 <= j < i ==> (#[trigger] out@[j]) < 128 && out@[j] as char == grouped_digits(h)[j],
        decreases 71 - i,
    {
        if i % 9 == 8 {
            out.push(32u8);
        } else {
            let k = i - i / 9;
            let c = hb[k];
            proof {
                assert(h[k as int] <= '\u{7f}');
                assert(c == h[k as int] as u8);
            }
            out.push(c);
        }
        i = i + 1;
    }
    assert(ascii_chars(out@) =~= grouped_digits(h));
    assert(is_safety_number_format(grouped_digits(h))) by {
        assert forall|i: int| 0 <= i < 71 implies if i % 9 == 8 {
            grouped_digits(h)[i] == ' '
        } else {
            is_lower_hex_char(#[trigger] grouped_digits(h)[i])
        } by {
            if i % 9 != 8 {
                assert(0 <= i - i / 9 < 64);
                assert(is_lower_hex_char(h[i - i / 9]));
            }
        }
    }
    ascii_string(out)
}

/// Of two different byte strings exactly one is lexicographically smaller.
pub proof fn lemma_bytes_lt_total(a: Seq<u8>, b: Seq<u8>)
    requires
        a != b,
    ensures
        bytes_lt(a, b) != bytes_lt(b, a),
    decreases a.len(),
{
    if a.len() > 0 && b.len() > 0 && a[0] == b[0] {
        if a.drop_first() == b.drop_first() {
            assert(a =~= seq![a[0]] + a.drop_first());
            assert(b =~= seq![b[0]] + b.drop_first());
        }
        lemma_bytes_lt_total(a.drop_first(), b.drop_first());
    } else if a.len() == 0 && b.len() == 0 {
        assert(a =~= b);
    }
}

/// Both parties get the same safety number whichever fingerprint comes
/// first.
pub proof fn law_safety_number_symmetric(fp1: Seq<char>, fp2: Seq<char>)
    ensures
        safety_number_of(fp1, fp2) == safety_number_of(fp2, fp1),
{
    let u1 = unicode_upper(fp1);
    let u2 = unicode_upper(fp2);
    let e1 = encode_utf8(u1);
    let e2 = encode_utf8(u2);
    vstd::utf8::encode_utf8_decode_utf8(u1);
    vstd::utf8::encode_utf8_decode_utf8(u2);
    if e1 != e2 {
        lemma_bytes_lt_total(e1, e2);
    } else {
        assert(u1 == u2);
    }
}

/// Sixteen random lower-case hex digits (a 64-bit random identifier).
pub fn uuid_hex() -> (r: String)
    ensures
        exists|b: Seq<u8>| b.len() == 8 && r@ == #[trigger] hex_lower(b),
        r@.len() == 16,
{
    let b = random_bytes(8);
    proof {
        lemma_hex_lower_len(b@);
    }
    hex_encode(b.as_slice())
}

/// Bytes of `ws://`.
pub open spec fn ws_prefix() -> Seq<u8> {
    seq![119u8, 115, 58, 47, 47]
}

/// Bytes of `wss://`.
pub open spec fn wss_prefix() -> Seq<u8> {
    seq![119u8, 115, 115, 58, 47, 47]
}

/// Length of a leading `ws://` or `wss://`, zero without one.
pub open spec fn scheme_len(b: Seq<u8>) -> int {
    if b.len() >= 5 && b.subrange(0, 5) == ws_prefix() {
        5
    } else if b.len() >= 6 && b.subrange(0, 6) == wss_prefix() {
        6
    } else {
        0
    }
}

/// Index of the first `/` at or after `i`, or the length.
pub open spec fn path_start(b: Seq<u8>, i: int) -> int
    decreases b.len() - i,
{
    if i < 0 || i >= b.len() {
        b.len() as int
    } else if b[i] == 47 {
        i
    } else {
        path_start(b, i + 1)
    }
}

/// Index of the last `:` in `[s, e)`, or -1.
pub open spec fn last_colon(b: Seq<u8>, s: int, e: int) -> int
    decreases e - s,
{
    if e <= s {
        -1
    } else if b[e - 1] == 58 {
        e - 1
    } else {
        last_colon(b, s, e - 1)
    }
}

/// The host part of an address's bytes: after an optional `ws://` or
/// `wss://`, before the first `/`, and before the last `:` of what remains.
pub open spec fn host_bytes(b: Seq<u8>) -> Seq<u8> {
    let s = scheme_len(b);
    let e = path_start(b, s);
    let c = last_colon(b, s, e);
    if c >= 0 {
        b.subrange(s, c)
    } else {
        b.subrange(s, e)
    }
}

/// The first `/` at or after `i`.
fn find_path_start(b: &[u8], i: usize) -> (e: usize)
    requires
        i <= b@.len(),
    ensures
        e == path_start(b@, i as int),
        i <= e <= b@.len(),
        e < b@.len() ==> b@[e as int] == 47,
    decreases b@.len() - i,
{
    let mut j = i;
    while j < b.len()
        invariant
            i <= j <= b@.len(),
            path_start(b@, i as int) == path_start(b@, j as int),
        decreases b@.len() - j,
    {
        if b[j] == 47 {
            return j;
        }
        j = j + 1;
    }
    j
}

/// The last `:` in `[s, e)`.
fn find_last_colon(b: &[u8], s: usize, e: usize) -> (c: Option<usize>)
    requires
        s <= e <= b@.len(),
    ensures
        match c {
            Some(k) => k == last_colon(b@, s as int, e as int) && s <= k < e && b@[k as int] == 58,
            None => last_colon(b@, s as int, e as int) == -1,
        },
{
    let mut j = e;
    while j > s
        invariant
            s <= j <= e,
            e <= b@.len(),
            last_colon(b@, s as int, e as int) == last_colon(b@, s as int, j as int),
        decreases j - s,
    {
        if b[j - 1] == 58 {
            return Some(j - 1);
        }
        j = j - 1;
    }
    None
}

/// The host of a `ws://host:port` (or `wss://`, or bare `host:port`)
/// address, without path or port.
pub fn addr_host(addr: &str) -> (r: String)
    ensures
        r@ == decode_utf8(host_bytes(addr.spec_bytes())),
{
    let b = addr.as_bytes();
    let ghost bs = b@;
    proof {
        vstd::utf8::encode_utf8_valid_utf8(addr@);
    }
    let s: usize = if b.len() >= 5 && b[0] == 119 && b[1] == 115 && b[2] == 58 && b[3] == 47 && b[4] == 47 {
        assert(bs.subrange(0, 5) =~= ws_prefix());
        5
    } else if b.len() >= 6 && b[0] == 119 && b[1] == 115 && b[2] == 115 && b[3] == 58 && b[4] == 47 && b[5] == 47 {
        assert(bs.subrange(0, 5) != ws_prefix()) by {
            if b.len() >= 5 {
                assert(bs.subrange(0, 5)[2] == 115);
            }
        }
        assert(bs.subrange(0, 6) =~= wss_prefix());
        6
    } else {
        proof {
            if bs.len() >= 5 && bs.subrange(0, 5) == ws_prefix() {
                assert(bs[2] == bs.subrange(0, 5)[2]);
                assert(bs[4] == bs.subrange(0, 5)[4]);
                assert(bs[0] == bs.subrange(0, 5)[0] && bs[1] == bs.subrange(0, 5)[1] && bs[3] == bs.subrange(0, 5)[3]);
            }
            if bs.len() >= 6 && bs.subrange(0, 6) == wss_prefix() {
                assert(bs[0] == bs.subrange(0, 6)[0] && bs[1] == bs.subrange(0, 6)[1] && bs[2] == bs.subrange(0, 6)[2]);
                assert(bs[3] == bs.subrange(0, 6)[3] && bs[4] == bs.subrange(0, 6)[4] && bs[5] == bs.subrange(0, 6)[5]);
            }
        }
        0
    };
    assert(s == scheme_len(bs));
    let e = find_path_start(b, s);
    let end: usize = match find_last_colon(b, s, e) {
        Some(c) => c,
        None => e,
    };
    assert(bs.subrange(s as int, end as int) == host_bytes(bs));
    proof {
        if end < bs.len() {
            assert(bs[end as int] == 47 || bs[end as int] == 58);
            is_char_boundary_iff_not_is_continuation_byte(bs, end as int);
        } else {
            is_char_boundary_start_end_of_seq(bs);
        }
    }
    let (left, _) = addr.split_at(end);
    let ghost lb = left.spec_bytes();
    proof {
        assert(lb =~= bs.subrange(0, end as int));
        vstd::utf8::encode_utf8_valid_utf8(left@);
        assert forall|i: int| 0 <= i < s implies lb[i] < 128 by {
            assert(lb[i] == bs[i]);
        }
        lemma_ascii_prefix_boundary(lb, s as int);
    }
    let (_, host) = left.split_at(s);
    proof {
        assert(host.spec_bytes() =~= bs.subrange(s as int, end as int));
        vstd::utf8::encode_utf8_decode_utf8(host@);
    }
    host.to_string()
}

/// Whether a fingerprint is among the contacts' fingerprints.
pub open spec fn is_contact_fp(contact_fps: Seq<String>, fp: Seq<char>) -> bool {
    exists|i: int| 0 <= i < contact_fps.len() && (#[trigger] contact_fps[i])@ == fp
}

/// The mutual-consent gate for an inbound hello: the peer must be a
/// contact, or a well-known public service.
pub fn inbound_peer_allowed(peer_fp: &str, contact_fps: &[String]) -> (r: bool)
    ensures
        r == (is_contact_fp(contact_fps@, peer_fp@) || peer_fp@ == reflector_fingerprint()),
{
    let mut i: usize = 0;
    while i < contact_fps.len()
        invariant
            i <= contact_fps@.len(),
            forall|j: int| 0 <= j < i ==> (#[trigger] contact_fps@[j])@ != peer_fp@,
        decreases contact_fps@.len() - i,
    {
        if str_eq(contact_fps[i].as_str(), peer_fp) {
            assert(contact_fps@[i as int]@ == peer_fp@);
            return true;
        }
        i = i + 1;
    }
    is_public_service_fingerprint(peer_fp)
}

/// The fingerprint a message to `recipient_nid` is sealed for: the
/// reflector's for the public service, otherwise the contact's; an unknown
/// recipient is refused.
pub fn recipient_fingerprint(recipient_nid: &str, contacts: &[(String, String)]) -> (r: Result<String, String>)
    ensures
        recipient_nid@ == reflector_null_id() ==> (r matches Ok(fp) && fp@ == reflector_fingerprint()),
        recipient_nid@ != reflector_null_id() ==> match alias_of(contacts@, recipient_nid@) {
            Some(fp) => r matches Ok(f) && f@ == fp,
            None => r matches Err(e) && e@ == "unknown contact — add with 'add-contact' first"@,
        },
{
    if is_public_service(recipient_nid) {
        return Ok("3957378550B111F2678DC1B4A58C27B22091D5CF".to_string());
    }
    let mut i: usize = 0;
    assert(contacts@.subrange(0, contacts@.len() as int) =~= contacts@);
    while i < contacts.len()
        invariant
            i <= contacts@.len(),
            recipient_nid@ != reflector_null_id(),
            alias_of(contacts@, recipient_nid@) == alias_of(contacts@.subrange(i as int, contacts@.len() as int), recipient_nid@),
        decreases contacts@.len() - i,
    {
        let ghost rest = contacts@.subrange(i as int, contacts@.len() as int);
        assert(rest[0] == contacts@[i as int]);
        if str_eq(contacts[i].0.as_str(), recipient_nid) {
            return Ok(contacts[i].1.clone());
        }
        assert(rest.drop_first() =~= contacts@.subrange(i + 1, contacts@.len() as int));
        i = i + 1;
    }
    Err("unknown contact — add with 'add-contact' first".to_string())
}

/// An address with `http://` turned into `ws://` and then `https://` into
/// `wss://`.
pub open spec fn ws_url_of(addr: Seq<char>) -> Seq<char> {
    replace_all(replace_all(addr, "http://"@, "ws://"@), "https://"@, "wss://"@)
}

/// The WebSocket form of a listener or relay address.
pub fn to_ws_url(addr: &str) -> (r: String)
    ensures
        r@ == ws_url_of(addr@),
{
    proof {
        reveal_strlit("http://");
        reveal_strlit("https://");
    }
    let a = str_replace(addr, "http://", "ws://");
    str_replace(a.as_str(), "https://", "wss://")
}

/// Sequence without later repeats of earlier elements.
pub open spec fn dedup_texts(s: Seq<Seq<char>>) -> Seq<Seq<char>>
    decreases s.len(),
{
    if s.len() == 0 {
        s
    } else {
        let r = dedup_texts(s.drop_last());
        if r.contains(s.last()) {
            r
        } else {
            r.push(s.last())
        }
    }
}

/// `ws://a.b.c.d:port`.
pub open spec fn ipv4_ws_url(ip: Seq<u8>, port: u16) -> Seq<char> {
    "ws://"@ + decimal(ip[0] as nat) + "."@ + decimal(ip[1] as nat) + "."@ + decimal(ip[2] as nat) + "."@
        + decimal(ip[3] as nat) + ":"@ + decimal(port as nat)
}

/// The connection candidates for a peer's WebSocket address, local first:
/// loopback and our LAN address on the address's port (when the text after
/// its last `:` is a port), then the address itself; repeats dropped.
pub open spec fn p2p_candidates_of(ws_url: Seq<char>, lan: Option<Seq<u8>>) -> Seq<Seq<char>> {
    let after = decode_utf8(match last_index(encode_utf8(ws_url), 58) {
        Some(i) => encode_utf8(ws_url).subrange(i + 1, encode_utf8(ws_url).len() as int),
        None => encode_utf8(ws_url),
    });
    let local = match parsed_u16(after) {
        Some(p) => seq![ipv4_ws_url(seq![127u8, 0, 0, 1], p)] + match lan {
            Some(ip) => seq![ipv4_ws_url(ip, p)],
            None => Seq::empty(),
        },
        None => Seq::empty(),
    };
    dedup_texts(local.push(ws_url))
}

/// `ws://a.b.c.d:port` for an IPv4 address.
fn ipv4_url(ip: &[u8; 4], port: u16) -> (r: String)
    ensures
        r@ == ipv4_ws_url(ip@, port),
{
    proof {
        reveal_strlit("ws://");
        reveal_strlit(".");
        reveal_strlit(":");
    }
    String::from_str("ws://").concat(decimal_string(ip[0] as u64).as_str()).concat(".").concat(
        decimal_string(ip[1] as u64).as_str(),
    ).concat(".").concat(decimal_string(ip[2] as u64).as_str()).concat(".").concat(
        decimal_string(ip[3] as u64).as_str(),
    ).concat(":").concat(decimal_string(port as u64).as_str())
}

/// Append `s` unless an equal text is already there.
fn push_unique(v: &mut Vec<String>, s: String)
    ensures
        ({
            let old_texts = old(v)@.map_values(|t: String| t@);
            let new_texts = final(v)@.map_values(|t: String| t@);
            new_texts == if old_texts.contains(s@) { old_texts } else { old_texts.push(s@) }
        }),
{
    let ghost texts = v@.map_values(|t: String| t@);
    let mut i: usize = 0;
    while i < v.len()
        invariant
            i <= v@.len(),
            texts == v@.map_values(|t: String| t@),
            forall|j: int| 0 <= j < i ==> v@[j]@ != s@,
        decreases v@.len() - i,
    {
        if str_eq(v[i].as_str(), s.as_str()) {
            assert(texts[i as int] == s@);
            return;
        }
        i = i + 1;
    }
    proof {
        if texts.contains(s@) {
            let k = choose|k: int| 0 <= k < texts.len() && texts[k] == s@;
            assert(v@[k]@ == s@);
        }
    }
    v.push(s);
    assert(v@.map_values(|t: String| t@) =~= texts.push(s@));
}

/// The direct-connection candidates for a peer's WebSocket address, given
/// our LAN address if we have one.
pub fn p2p_candidates(ws_url: &str, lan: Option<[u8; 4]>) -> (r: Vec<String>)
    ensures
        r@.map_values(|t: String| t@) == p2p_candidates_of(ws_url@, match lan { Some(ip) => Some(ip@), None => None }),
{
    let port_text = after_last_ascii(ws_url, 58u8);
    proof {
        vstd::utf8::encode_utf8_decode_utf8(port_text@);
        vstd::utf8::encode_utf8_decode_utf8(ws_url@);
    }
    let port = str_parse_u16(port_text);
    let ghost lan_v: Option<Seq<u8>> = match lan { Some(ip) => Some(ip@), None => None };
    let mut all: Vec<String> = Vec::new();
    match port {
        Some(p) => {
            let lo: [u8; 4] = [127u8, 0, 0, 1];
            assert(lo@ =~= seq![127u8, 0, 0, 1]);
            all.push(ipv4_url(&lo, p));
            match lan {
                Some(ip) => all.push(ipv4_url(&ip, p)),
                None => {},
            }
        },
        None => {},
    }
    all.push(ws_url.to_string());
    let ghost input = all@.map_values(|t: String| t@);
    let mut out: Vec<String> = Vec::new();
    let mut i: usize = 0;
    while i < all.len()
        invariant
            i <= all@.len(),
            input == all@.map_values(|t: String| t@),
            out@.map_values(|t: String| t@) == dedup_texts(input.subrange(0, i as int)),
        decreases all@.len() - i,
    {
        let s = all[i].clone();
        assert(input.subrange(0, i + 1).drop_last() =~= input.subrange(0, i as int));
        assert(input.subrange(0, i + 1).last() == input[i as int]);
        push_unique(&mut out, s);
        i = i + 1;
    }
    assert(input.subrange(0, all@.len() as int) =~= input);
    proof {
        let local: Seq<Seq<char>> = match parsed_u16(port_text@) {
            Some(p) => seq![ipv4_ws_url(seq![127u8, 0, 0, 1], p)] + match lan_v {
                Some(ip) => seq![ipv4_ws_url(ip, p)],
                None => Seq::empty(),
            },
            None => Seq::empty(),
        };
        assert(input =~= local.push(ws_url@));
    }
    out
}


/// Who sent a relayed message, as `(null_id, fingerprint)`: the identity
/// sealed inside the blob when both parts are there, else the relay's
/// sender Null ID unless it is empty or `anonymous`, else the Null ID of
/// the relay's sender fingerprint unless that is empty or `anonymous`.
pub open spec fn relay_sender_of(blob_nid: Seq<char>, blob_fp: Seq<char>, sender_nid: Seq<char>, sender_fp: Seq<char>) -> Result<
    (Seq<char>, Seq<char>),
    Seq<char>,
> {
    if blob_nid.len() > 0 && blob_fp.len() > 0 {
        Ok((blob_nid, blob_fp))
    } else if sender_nid.len() > 0 && sender_nid != "anonymous"@ {
        Ok((sender_nid, sender_fp))
    } else if sender_fp.len() > 0 && sender_fp != "anonymous"@ {
        Ok((null_id_of(encode_utf8(sender_fp)), sender_fp))
    } else {
        Err("relay message has no recoverable sender identification"@)
    }
}

/// The sender identity of a relayed message (see `relay_sender_of`).
pub fn relay_sender_identity(blob_nid: &str, blob_fp: &str, sender_nid: &str, sender_fp: &str) -> (r: Result<
    (String, String),
    String,
>)
    ensures
        match (r, relay_sender_of(blob_nid@, blob_fp@, sender_nid@, sender_fp@)) {
            (Ok((n, f)), Ok((sn, sf))) => n@ == sn && f@ == sf,
            (Err(e), Err(se)) => e@ == se,
            _ => false,
        },
{
    if !blob_nid.is_empty() && !blob_fp.is_empty() {
        Ok((blob_nid.to_string(), blob_fp.to_string()))
    } else if !sender_nid.is_empty() && !str_eq(sender_nid, "anonymous") {
        Ok((sender_nid.to_string(), sender_fp.to_string()))
    } else if !sender_fp.is_empty() && !str_eq(sender_fp, "anonymous") {
        Ok((null_id(sender_fp), sender_fp.to_string()))
    } else {
        Err("relay message has no recoverable sender identification".to_string())
    }
}


/// The sender-key hash of a delivery token: the first 32 hex digits of the
/// SHA-256 of the sender's fingerprint, in two groups of 16 joined by `:`.
pub open spec fn sender_key_hash_of(fp: Seq<char>) -> Seq<char> {
    let h = hex_lower(sha256(encode_utf8(fp)));
    h.subrange(0, 16) + ":"@ + h.subrange(16, 32)
}

/// The sender-key hash that goes into a delivery token message.
pub fn sender_key_hash(fingerprint: &str) -> (r: String)
    ensures
        r@ == sender_key_hash_of(fingerprint@),
{
    let digest = sha256_digest(fingerprint.as_bytes());
    let h = hex_encode(digest.as_slice());
    let hb = h.as_str().as_bytes();
    let ghost hv = h@;
    proof {
        lemma_hex_lower_len(digest@);
        lemma_hex_lower_ascii(digest@);
        lemma_hex_text_bytes(digest@);
        reveal_strlit(":");
    }
    assert(hb@.len() == 64);
    let mut out: Vec<u8> = Vec::new();
    for i in 0..16
        invariant
            hb@ == hv.map_values(|c: char| c as u8),
            hv.len() == 64,
            is_ascii_chars(hv),
            out@.len() == i,
            forall|j: int| 0 <= j < i ==> #[trigger] out@[j] == hv[j] as u8,
    {
        out.push(hb[i]);
    }
    out.push(58u8);
    for i in 16..32
        invariant
            hb@ == hv.map_values(|c: char| c as u8),
            hv.len() == 64,
            is_ascii_chars(hv),
            out@.len() == i + 1,
            forall|j: int| 0 <= j < 16 ==> #[trigger] out@[j] == hv[j] as u8,
            out@[16] == 58u8,
            forall|j: int| 16 <= j < i ==> #[trigger] out@[j + 1] == hv[j] as u8,
    {
        out.push(hb[i]);
    }
    assert(all_ascii(out@)) by {
        assert forall|j: int| 0 <= j < out@.len() implies #[trigger] out@[j] < 128 by {
            if j < 16 {
                assert('\0' <= hv[j] <= '\u{7f}');
            } else if j > 16 {
                assert(out@[(j - 1) + 1] == hv[j - 1] as u8);
                assert('\0' <= hv[j - 1] <= '\u{7f}');
            }
        }
    }
    let ghost expected = hv.subrange(0, 16) + ":"@ + hv.subrange(16, 32);
    assert(ascii_chars(out@) =~= expected) by {
        assert forall|j: int| 0 <= j < 33 implies #[trigger] ascii_chars(out@)[j] == expected[j] by {
            if j < 16 {
                assert('\0' <= hv[j] <= '\u{7f}');
            } else if j > 16 {
                assert(out@[(j - 1) + 1] == hv[j - 1] as u8);
                assert('\0' <= hv[j - 1] <= '\u{7f}');
            }
        }
    }
    ascii_string(out)
}


/// Why a message's status changed, by the new status: `relay_ack` (1),
/// `delivered` (2), `read_receipt` (3), `status_change` otherwise.
pub fn transition_reason(status: u8) -> (r: &'static str)
    ensures
        r@ == (if status == 1 {
            "relay_ack"@
        } else if status == 2 {
            "delivered"@
        } else if status == 3 {
            "read_receipt"@
        } else {
            "status_change"@
        }),
{
    match status {
        1 => "relay_ack",
        2 => "delivered",
        3 => "read_receipt",
        _ => "status_change",
    }
}

/// The stored `delivered` flag for a status: 1 from status 2 (delivered)
/// on, else 0.
pub fn delivered_flag(status: u8) -> (r: i64)
    ensures
        r == (if status >= 2 { 1int } else { 0int }),
{
    if status >= 2 {
        1
    } else {
        0
    }
}

} // verus!
