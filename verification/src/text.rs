//! ASCII text: byte strings below 128 are valid UTF-8 and decode to the
//! characters with the same codes.
use vstd::prelude::*;
use vstd::string::StringSliceAdditionalSpecFns;
use vstd::utf8::{
    decode_utf8, encode_utf8, is_ascii_chars, is_ascii_chars_encode_utf8, is_char_boundary,
    is_char_boundary_iff_not_is_continuation_byte, length_of_first_scalar, pop_first_scalar, valid_utf8,
};
use crate::primitives::string_from_utf8;

verus! {

/// Every byte is ASCII.
pub open spec fn all_ascii(bytes: Seq<u8>) -> bool {
    forall|i: int| 0 <= i < bytes.len() ==> #[trigger] bytes[i] < 128
}

/// The characters with the codes of the given bytes.
pub open spec fn ascii_chars(bytes: Seq<u8>) -> Seq<char> {
    Seq::new(bytes.len(), |i: int| bytes[i] as char)
}

/// ASCII bytes are valid UTF-8 and decode code for code.
pub proof fn lemma_ascii_utf8(bytes: Seq<u8>)
    requires
        all_ascii(bytes),
    ensures
        valid_utf8(bytes),
        decode_utf8(bytes) == ascii_chars(bytes),
    decreases bytes.len(),
{
    if bytes.len() > 0 {
        let b = bytes[0];
        assert(b < 128);
        assert((b & 0x7f) == b) by (bit_vector)
            requires
                b < 128,
        ;
        let rest = bytes.subrange(1, bytes.len() as int);
        assert(vstd::utf8::pop_first_scalar(bytes) =~= rest);
        assert(all_ascii(rest)) by {
            assert forall|i: int| 0 <= i < rest.len() implies #[trigger] rest[i] < 128 by {
                assert(rest[i] == bytes[i + 1]);
            }
        }
        lemma_ascii_utf8(rest);
        assert(decode_utf8(bytes) =~= ascii_chars(bytes)) by {
            assert(decode_utf8(bytes) == seq![b as u32 as char] + decode_utf8(rest));
        }
    }
}

/// The string of ASCII bytes.
pub fn ascii_string(bytes: Vec<u8>) -> (s: String)
    requires
        all_ascii(bytes@),
    ensures
        s@ == ascii_chars(bytes@),
{
    proof {
        lemma_ascii_utf8(bytes@);
    }
    let ghost b = bytes@;
    match string_from_utf8(bytes) {
        Some(s) => s,
        None => String::new(),
    }
}

/// String equality, character by character.
pub fn str_eq(a: &str, b: &str) -> (r: bool)
    ensures
        r == (a@ == b@),
{
    let ab = a.as_bytes();
    let bb = b.as_bytes();
    if ab.len() != bb.len() {
        proof {
            if a@ == b@ {
                assert(ab@ == bb@);
            }
        }
        return false;
    }
    let mut i: usize = 0;
    while i < ab.len()
        invariant
            ab@.len() == bb@.len(),
            ab@ == encode_utf8(a@),
            bb@ == encode_utf8(b@),
            i <= ab@.len(),
            forall|j: int| 0 <= j < i ==> ab@[j] == bb@[j],
        decreases ab@.len() - i,
    {
        if ab[i] != bb[i] {
            proof {
                if a@ == b@ {
                    assert(ab@ == bb@);
                }
            }
            return false;
        }
        i = i + 1;
    }
    proof {
        assert(ab@ =~= bb@);
        vstd::utf8::encode_utf8_decode_utf8(a@);
        vstd::utf8::encode_utf8_decode_utf8(b@);
    }
    true
}

/// The bytes of an ASCII character sequence.
pub open spec fn ascii_bytes(chars: Seq<char>) -> Seq<u8> {
    Seq::new(chars.len(), |i: int| chars[i] as u8)
}

/// ASCII characters survive the trip through their bytes, and the
/// characters of a concatenation are the concatenated characters.
pub proof fn lemma_ascii_bytes_chars(c: Seq<char>)
    requires
        is_ascii_chars(c),
    ensures
        all_ascii(ascii_bytes(c)),
        ascii_chars(ascii_bytes(c)) == c,
{
    assert(ascii_chars(ascii_bytes(c)) =~= c);
}

/// Characters of concatenated bytes.
pub proof fn lemma_ascii_chars_add(a: Seq<u8>, b: Seq<u8>)
    ensures
        ascii_chars(a + b) == ascii_chars(a) + ascii_chars(b),
        all_ascii(a) && all_ascii(b) ==> all_ascii(a + b),
{
    assert(ascii_chars(a + b) =~= ascii_chars(a) + ascii_chars(b));
    if all_ascii(a) && all_ascii(b) {
        assert forall|i: int| 0 <= i < (a + b).len() implies #[trigger] (a + b)[i] < 128 by {
            if i < a.len() {
                assert((a + b)[i] == a[i]);
            } else {
                assert((a + b)[i] == b[i - a.len()]);
            }
        }
    }
}

/// The decimal digits of `n` as ASCII bytes, most significant first.
pub open spec fn decimal_bytes(n: nat) -> Seq<u8>
    decreases n,
{
    if n < 10 {
        seq![(48 + n) as u8]
    } else {
        decimal_bytes(n / 10).push((48 + n % 10) as u8)
    }
}

/// The decimal notation of `n`.
pub open spec fn decimal(n: nat) -> Seq<char> {
    ascii_chars(decimal_bytes(n))
}

/// Decimal digits are ASCII.
pub proof fn lemma_decimal_ascii(n: nat)
    ensures
        all_ascii(decimal_bytes(n)),
    decreases n,
{
    if n >= 10 {
        lemma_decimal_ascii(n / 10);
        assert forall|i: int| 0 <= i < decimal_bytes(n).len() implies #[trigger] decimal_bytes(n)[i] < 128 by {
            if i < decimal_bytes(n / 10).len() {
                assert(decimal_bytes(n)[i] == decimal_bytes(n / 10)[i]);
            }
        }
    }
}

/// Append the decimal digits of `x`.
pub fn push_decimal(out: &mut Vec<u8>, x: u64)
    ensures
        final(out)@ == old(out)@ + decimal_bytes(x as nat),
    decreases x,
{
    if x < 10 {
        let d = x as u8;
        out.push(48u8 + d);
        assert(decimal_bytes(x as nat) =~= seq![(48 + x) as u8]);
        assert(final(out)@ =~= old(out)@ + decimal_bytes(x as nat));
    } else {
        push_decimal(out, x / 10);
        let d = (x % 10) as u8;
        out.push(48u8 + d);
        assert(final(out)@ =~= old(out)@ + decimal_bytes(x as nat));
    }
}

/// The decimal notation of `x`.
pub fn decimal_string(x: u64) -> (s: String)
    ensures
        s@ == decimal(x as nat),
{
    let mut v: Vec<u8> = Vec::new();
    push_decimal(&mut v, x);
    assert(v@ =~= decimal_bytes(x as nat));
    proof {
        lemma_decimal_ascii(x as nat);
    }
    ascii_string(v)
}

/// Append the bytes of an ASCII string.
pub fn push_ascii(out: &mut Vec<u8>, s: &str)
    requires
        is_ascii_chars(s@),
    ensures
        final(out)@ == old(out)@ + ascii_bytes(s@),
{
    proof {
        is_ascii_chars_encode_utf8(s@);
    }
    let b = s.as_bytes();
    assert(b@ =~= ascii_bytes(s@));
    out.extend_from_slice(b);
}

/// `a`, the decimal notation of `x`, `b`, that of `y`, then `c`.
pub fn text_with_two_numbers(a: &str, x: u64, b: &str, y: u64, c: &str) -> (s: String)
    requires
        is_ascii_chars(a@),
        is_ascii_chars(b@),
        is_ascii_chars(c@),
    ensures
        s@ == a@ + decimal(x as nat) + b@ + decimal(y as nat) + c@,
{
    let mut out: Vec<u8> = Vec::new();
    push_ascii(&mut out, a);
    push_decimal(&mut out, x);
    push_ascii(&mut out, b);
    push_decimal(&mut out, y);
    push_ascii(&mut out, c);
    proof {
        let d1 = decimal_bytes(x as nat);
        let d2 = decimal_bytes(y as nat);
        lemma_ascii_bytes_chars(a@);
        lemma_ascii_bytes_chars(b@);
        lemma_ascii_bytes_chars(c@);
        lemma_decimal_ascii(x as nat);
        lemma_decimal_ascii(y as nat);
        assert(out@ == ascii_bytes(a@) + d1 + ascii_bytes(b@) + d2 + ascii_bytes(c@));
        lemma_ascii_chars_add(ascii_bytes(a@), d1);
        lemma_ascii_chars_add(ascii_bytes(a@) + d1, ascii_bytes(b@));
        lemma_ascii_chars_add(ascii_bytes(a@) + d1 + ascii_bytes(b@), d2);
        lemma_ascii_chars_add(ascii_bytes(a@) + d1 + ascii_bytes(b@) + d2, ascii_bytes(c@));
    }
    ascii_string(out)
}

/// In valid UTF-8, the position after a run of ASCII bytes is a character
/// boundary.
pub proof fn lemma_ascii_prefix_boundary(b: Seq<u8>, n: int)
    requires
        valid_utf8(b),
        0 <= n <= b.len(),
        forall|i: int| 0 <= i < n ==> b[i] < 128,
    ensures
        is_char_boundary(b, n),
    decreases n,
{
    if n > 0 {
        assert(b[0] < 128);
        assert(length_of_first_scalar(b) == 1);
        let rest = pop_first_scalar(b);
        assert(rest =~= b.subrange(1, b.len() as int));
        assert forall|i: int| 0 <= i < n - 1 implies rest[i] < 128 by {
            assert(rest[i] == b[i + 1]);
        }
        lemma_ascii_prefix_boundary(rest, n - 1);
    }
}

/// Index of the first byte `d` in `b`, if any.
pub open spec fn first_index(b: Seq<u8>, d: u8) -> Option<int> {
    if exists|i: int| 0 <= i < b.len() && b[i] == d {
        Some(choose|i: int| 0 <= i < b.len() && b[i] == d && forall|j: int| 0 <= j < i ==> b[j] != d)
    } else {
        None
    }
}

/// Position of the first byte `d`.
pub fn find_byte(b: &[u8], d: u8) -> (r: Option<usize>)
    ensures
        match r {
            None => forall|j: int| 0 <= j < b@.len() ==> b@[j] != d,
            Some(i) => i < b@.len() && b@[i as int] == d && forall|j: int| 0 <= j < i ==> b@[j] != d,
        },
{
    let mut i: usize = 0;
    while i < b.len()
        invariant
            i <= b@.len(),
            forall|j: int| 0 <= j < i ==> b@[j] != d,
        decreases b@.len() - i,
    {
        if b[i] == d {
            return Some(i);
        }
        i = i + 1;
    }
    None
}

/// The first position of `d` is `i`.
proof fn lemma_first_index(b: Seq<u8>, d: u8, i: int)
    requires
        0 <= i < b.len(),
        b[i] == d,
        forall|j: int| 0 <= j < i ==> b[j] != d,
    ensures
        first_index(b, d) == Some(i),
{
    assert(0 <= i < b.len() && b[i] == d);
    let c = choose|k: int| 0 <= k < b.len() && b[k] == d && forall|j: int| 0 <= j < k ==> b[j] != d;
    assert(b[i] == d && forall|j: int| 0 <= j < i ==> b[j] != d);
    assert(c == i) by {
        if c < i {
            assert(b[c] != d);
        }
        if c > i {
            assert(b[i] != d);
        }
    }
}

/// `str::split_once` on an ASCII delimiter: the text before and after its
/// first occurrence.
pub fn split_once_ascii(s: &str, d: u8) -> (r: Option<(&str, &str)>)
    requires
        d < 128,
    ensures
        match first_index(s.spec_bytes(), d) {
            None => r is None,
            Some(i) => r matches Some((a, b)) && a.spec_bytes() == s.spec_bytes().subrange(0, i)
                && b.spec_bytes() == s.spec_bytes().subrange(i + 1, s.spec_bytes().len() as int),
        },
{
    let bytes = s.as_bytes();
    let ghost bs = bytes@;
    match find_byte(bytes, d) {
        None => None,
        Some(i) => {
            proof {
                vstd::utf8::encode_utf8_valid_utf8(s@);
                is_char_boundary_iff_not_is_continuation_byte(bs, i as int);
                lemma_first_index(bs, d, i as int);
            }
            let (a, rest) = s.split_at(i);
            proof {
                vstd::utf8::encode_utf8_valid_utf8(rest@);
                assert(rest.spec_bytes() =~= bs.subrange(i as int, bs.len() as int));
                assert(rest.spec_bytes()[0] == d);
                lemma_ascii_prefix_boundary(rest.spec_bytes(), 1);
            }
            let (_, b) = rest.split_at(1);
            proof {
                assert(b.spec_bytes() =~= bs.subrange(i + 1, bs.len() as int));
            }
            Some((a, b))
        },
    }
}

/// Index of the last byte `d` in `b`, if any.
pub open spec fn last_index(b: Seq<u8>, d: u8) -> Option<int> {
    if exists|i: int| 0 <= i < b.len() && b[i] == d {
        Some(choose|i: int| 0 <= i < b.len() && b[i] == d && forall|j: int| i < j < b.len() ==> b[j] != d)
    } else {
        None
    }
}

/// The last position of `d` is `i`.
proof fn lemma_last_index(b: Seq<u8>, d: u8, i: int)
    requires
        0 <= i < b.len(),
        b[i] == d,
        forall|j: int| i < j < b.len() ==> b[j] != d,
    ensures
        last_index(b, d) == Some(i),
{
    assert(0 <= i < b.len() && b[i] == d);
    let c = choose|k: int| 0 <= k < b.len() && b[k] == d && forall|j: int| k < j < b.len() ==> b[j] != d;
    assert(b[i] == d && forall|j: int| i < j < b.len() ==> b[j] != d);
    assert(c == i) by {
        if c < i {
            assert(b[i] != d);
        }
        if c > i {
            assert(b[c] != d);
        }
    }
}

/// `str::rsplit(d).next()` on an ASCII delimiter: the text after its last
/// occurrence, or all of it.
pub fn after_last_ascii(s: &str, d: u8) -> (r: &str)
    requires
        d < 128,
    ensures
        match last_index(s.spec_bytes(), d) {
            None => r@ == s@,
            Some(i) => r.spec_bytes() == s.spec_bytes().subrange(i + 1, s.spec_bytes().len() as int),
        },
{
    let bytes = s.as_bytes();
    let ghost bs = bytes@;
    match find_last_byte(bytes, d) {
        None => {
            proof {
                if exists|i: int| 0 <= i < bs.len() && bs[i] == d {
                    let i = choose|i: int| 0 <= i < bs.len() && bs[i] == d;
                    assert(bs[i] != d);
                }
            }
            s
        },
        Some(k) => {
            proof {
                vstd::utf8::encode_utf8_valid_utf8(s@);
                is_char_boundary_iff_not_is_continuation_byte(bs, k as int);
                lemma_last_index(bs, d, k as int);
            }
            let (_, rest) = s.split_at(k);
            proof {
                vstd::utf8::encode_utf8_valid_utf8(rest@);
                assert(rest.spec_bytes() =~= bs.subrange(k as int, bs.len() as int));
                assert(rest.spec_bytes()[0] == d);
                lemma_ascii_prefix_boundary(rest.spec_bytes(), 1);
            }
            let (_, b) = rest.split_at(1);
            proof {
                assert(b.spec_bytes() =~= bs.subrange(k + 1, bs.len() as int));
            }
            b
        },
    }
}

/// Position of the last byte `d`.
pub fn find_last_byte(b: &[u8], d: u8) -> (r: Option<usize>)
    ensures
        match r {
            None => forall|j: int| 0 <= j < b@.len() ==> b@[j] != d,
            Some(i) => i < b@.len() && b@[i as int] == d && forall|j: int| i < j < b@.len() ==> b@[j] != d,
        },
{
    let mut i: usize = b.len();
    while i > 0
        invariant
            i <= b@.len(),
            forall|j: int| i <= j < b@.len() ==> b@[j] != d,
        decreases i,
    {
        if b[i - 1] == d {
            return Some(i - 1);
        }
        i = i - 1;
    }
    None
}

} // verus!
