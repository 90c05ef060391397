//! Snapshot-resistant key custody: a single-use AES-256 key split 2-of-3 by
//! Shamir's secret sharing over GF(2^8) (reduction polynomial 0x11D).
use vstd::prelude::*;
use vstd::slice::slice_to_vec;
use crate::error::SnapError;
use crate::primitives::{
    aes256gcm_decrypt, aes256gcm_encrypt, aes256gcm_open, aes256gcm_seal, aes_gcm_max_len,
    random_bytes,
};

verus! {

/// AES-256 key length (bytes).
pub const KEY_LEN: usize = 32;
/// A shard is `x` (1 byte share index) followed by `y` (32-byte share value).
pub const SHARD_LEN: usize = 33;

/// Low 8 bits of the reduction polynomial 0x11D.
pub const GF_POLY: u8 = 0x1D;

// ---------------------------------------------------------------------------
// GF(2^8) arithmetic
// ---------------------------------------------------------------------------

/// Multiplication by x: shift left, reducing by 0x11D when bit 7 falls off.
pub open spec fn gf_xtime(a: u8) -> u8 {
    if a & 0x80u8 != 0 {
        ((a << 1u8) ^ GF_POLY) as u8
    } else {
        (a << 1u8) as u8
    }
}

/// Russian-peasant accumulation of `a * b` over `n` remaining bits of `b`,
/// starting from the partial product `p`.
pub open spec fn gf_mul_acc(p: u8, a: u8, b: u8, n: nat) -> u8
    decreases n,
{
    if n == 0 {
        p
    } else {
        let p2 = if b & 1u8 == 1u8 { (p ^ a) as u8 } else { p };
        gf_mul_acc(p2, gf_xtime(a), (b >> 1u8) as u8, (n - 1) as nat)
    }
}

/// The product of two field elements.
pub open spec fn spec_gf_mul(a: u8, b: u8) -> u8 {
    gf_mul_acc(0, a, b, 8)
}

/// The same product written out bit by bit (no recursion), so that the
/// bit-vector solver can reason about it.
pub open spec fn gf_mul_flat(a: u8, b: u8) -> u8 {
    let a1 = gf_xtime(a);
    let a2 = gf_xtime(a1);
    let a3 = gf_xtime(a2);
    let a4 = gf_xtime(a3);
    let a5 = gf_xtime(a4);
    let a6 = gf_xtime(a5);
    let a7 = gf_xtime(a6);
    let t0: u8 = if b & 1u8 == 1u8 { a } else { 0u8 };
    let t1: u8 = if (b >> 1u8) & 1u8 == 1u8 { a1 } else { 0u8 };
    let t2: u8 = if (b >> 2u8) & 1u8 == 1u8 { a2 } else { 0u8 };
    let t3: u8 = if (b >> 3u8) & 1u8 == 1u8 { a3 } else { 0u8 };
    let t4: u8 = if (b >> 4u8) & 1u8 == 1u8 { a4 } else { 0u8 };
    let t5: u8 = if (b >> 5u8) & 1u8 == 1u8 { a5 } else { 0u8 };
    let t6: u8 = if (b >> 6u8) & 1u8 == 1u8 { a6 } else { 0u8 };
    let t7: u8 = if (b >> 7u8) & 1u8 == 1u8 { a7 } else { 0u8 };
    (t0 ^ t1 ^ t2 ^ t3 ^ t4 ^ t5 ^ t6 ^ t7) as u8
}

} // verus!

verus! {

/// The recursive and the flat form of the product agree.
#[verifier::rlimit(40)]
pub proof fn lemma_gf_mul_flat(a: u8, b: u8)
    ensures
        spec_gf_mul(a, b) == gf_mul_flat(a, b),
{
    reveal_with_fuel(gf_mul_acc, 9);
    let a1 = gf_xtime(a);
    let a2 = gf_xtime(a1);
    let a3 = gf_xtime(a2);
    let a4 = gf_xtime(a3);
    let a5 = gf_xtime(a4);
    let a6 = gf_xtime(a5);
    let a7 = gf_xtime(a6);
    let b1 = (b >> 1u8) as u8;
    let b2 = (b1 >> 1u8) as u8;
    let b3 = (b2 >> 1u8) as u8;
    let b4 = (b3 >> 1u8) as u8;
    let b5 = (b4 >> 1u8) as u8;
    let b6 = (b5 >> 1u8) as u8;
    let b7 = (b6 >> 1u8) as u8;
    let p1: u8 = if b & 1u8 == 1u8 { (0u8 ^ a) as u8 } else { 0u8 };
    let p2: u8 = if b1 & 1u8 == 1u8 { (p1 ^ a1) as u8 } else { p1 };
    let p3: u8 = if b2 & 1u8 == 1u8 { (p2 ^ a2) as u8 } else { p2 };
    let p4: u8 = if b3 & 1u8 == 1u8 { (p3 ^ a3) as u8 } else { p3 };
    let p5: u8 = if b4 & 1u8 == 1u8 { (p4 ^ a4) as u8 } else { p4 };
    let p6: u8 = if b5 & 1u8 == 1u8 { (p5 ^ a5) as u8 } else { p5 };
    let p7: u8 = if b6 & 1u8 == 1u8 { (p6 ^ a6) as u8 } else { p6 };
    let p8: u8 = if b7 & 1u8 == 1u8 { (p7 ^ a7) as u8 } else { p7 };
    assert(gf_mul_acc(0, a, b, 8) == p8);
    assert(p8 == gf_mul_flat(a, b)) by (bit_vector)
        requires
            a1 == gf_xtime(a), a2 == gf_xtime(a1), a3 == gf_xtime(a2), a4 == gf_xtime(a3),
            a5 == gf_xtime(a4), a6 == gf_xtime(a5), a7 == gf_xtime(a6),
            b1 == (b >> 1u8) as u8, b2 == (b1 >> 1u8) as u8, b3 == (b2 >> 1u8) as u8,
            b4 == (b3 >> 1u8) as u8, b5 == (b4 >> 1u8) as u8, b6 == (b5 >> 1u8) as u8,
            b7 == (b6 >> 1u8) as u8,
            p1 == (if b & 1u8 == 1u8 { (0u8 ^ a) as u8 } else { 0u8 }),
            p2 == (if b1 & 1u8 == 1u8 { (p1 ^ a1) as u8 } else { p1 }),
            p3 == (if b2 & 1u8 == 1u8 { (p2 ^ a2) as u8 } else { p2 }),
            p4 == (if b3 & 1u8 == 1u8 { (p3 ^ a3) as u8 } else { p3 }),
            p5 == (if b4 & 1u8 == 1u8 { (p4 ^ a4) as u8 } else { p4 }),
            p6 == (if b5 & 1u8 == 1u8 { (p5 ^ a5) as u8 } else { p5 }),
            p7 == (if b6 & 1u8 == 1u8 { (p6 ^ a6) as u8 } else { p6 }),
            p8 == (if b7 & 1u8 == 1u8 { (p7 ^ a7) as u8 } else { p7 }),
    ;
}

/// Multiply two GF(2^8) elements (reduction polynomial 0x11D).
pub fn gf_mul(a: u8, b: u8) -> (r: u8)
    ensures
        r == spec_gf_mul(a, b),
{
    let ghost a0 = a;
    let ghost b0 = b;
    let mut a = a;
    let mut b = b;
    let mut p: u8 = 0;
    let mut i: u8 = 0;
    while i < 8
        invariant
            i <= 8,
            gf_mul_acc(p, a, b, (8 - i) as nat) == gf_mul_acc(0, a0, b0, 8),
        decreases 8 - i,
    {
        if b & 1 == 1 {
            p = p ^ a;
        }
        let hi = a & 0x80;
        let shifted: u8 = a << 1u8;
        if hi != 0 {
            a = shifted ^ GF_POLY;
        } else {
            a = shifted;
        }
        b = b >> 1u8;
        i = i + 1;
    }
    p
}

} // verus!

verus! {

/// Search for the multiplicative inverse: the first `i` in `start..=255`
/// with `a * i == 1`, or 0 when there is none.
pub open spec fn gf_inv_search(a: u8, start: int) -> u8
    decreases 256 - start,
{
    if start < 1 || start > 255 {
        0
    } else if spec_gf_mul(a, start as u8) == 1 {
        start as u8
    } else {
        gf_inv_search(a, start + 1)
    }
}

/// The multiplicative inverse in GF(2^8) (0 for 0, which has none).
pub open spec fn spec_gf_inv(a: u8) -> u8 {
    gf_inv_search(a, 1)
}

/// Division `a / b` in GF(2^8).
pub open spec fn spec_gf_div(a: u8, b: u8) -> u8 {
    spec_gf_mul(a, spec_gf_inv(b))
}

/// `a^254` by repeated squaring: the inverse of a nonzero `a`, as
/// `a^255 = 1` in the multiplicative group of GF(2^8).
pub open spec fn gf_fermat_inv(a: u8) -> u8 {
    let s1 = spec_gf_mul(a, a);
    let s2 = spec_gf_mul(s1, s1);
    let s3 = spec_gf_mul(s2, s2);
    let s4 = spec_gf_mul(s3, s3);
    let s5 = spec_gf_mul(s4, s4);
    let s6 = spec_gf_mul(s5, s5);
    let s7 = spec_gf_mul(s6, s6);
    spec_gf_mul(s1, spec_gf_mul(s2, spec_gf_mul(s3, spec_gf_mul(s4, spec_gf_mul(s5, spec_gf_mul(s6, s7))))))
}

/// Every nonzero element has `a^254` as a nonzero inverse (checked on the
/// bits of the flat form of the product).
proof fn lemma_fermat_inverse(a: u8)
    requires
        a != 0,
    ensures
        gf_fermat_inv(a) != 0,
        spec_gf_mul(a, gf_fermat_inv(a)) == 1,
{
    let s1 = spec_gf_mul(a, a);
    let s2 = spec_gf_mul(s1, s1);
    let s3 = spec_gf_mul(s2, s2);
    let s4 = spec_gf_mul(s3, s3);
    let s5 = spec_gf_mul(s4, s4);
    let s6 = spec_gf_mul(s5, s5);
    let s7 = spec_gf_mul(s6, s6);
    let p6 = spec_gf_mul(s6, s7);
    let p5 = spec_gf_mul(s5, p6);
    let p4 = spec_gf_mul(s4, p5);
    let p3 = spec_gf_mul(s3, p4);
    let p2 = spec_gf_mul(s2, p3);
    let f = spec_gf_mul(s1, p2);
    let r = spec_gf_mul(a, f);
    lemma_gf_mul_flat(a, a);
    lemma_gf_mul_flat(s1, s1);
    lemma_gf_mul_flat(s2, s2);
    lemma_gf_mul_flat(s3, s3);
    lemma_gf_mul_flat(s4, s4);
    lemma_gf_mul_flat(s5, s5);
    lemma_gf_mul_flat(s6, s6);
    lemma_gf_mul_flat(s6, s7);
    lemma_gf_mul_flat(s5, p6);
    lemma_gf_mul_flat(s4, p5);
    lemma_gf_mul_flat(s3, p4);
    lemma_gf_mul_flat(s2, p3);
    lemma_gf_mul_flat(s1, p2);
    lemma_gf_mul_flat(a, f);
    assert(f != 0 && r == 1) by (bit_vector)
        requires
            a != 0,
            s1 == gf_mul_flat(a, a),
            s2 == gf_mul_flat(s1, s1),
            s3 == gf_mul_flat(s2, s2),
            s4 == gf_mul_flat(s3, s3),
            s5 == gf_mul_flat(s4, s4),
            s6 == gf_mul_flat(s5, s5),
            s7 == gf_mul_flat(s6, s6),
            p6 == gf_mul_flat(s6, s7),
            p5 == gf_mul_flat(s5, p6),
            p4 == gf_mul_flat(s4, p5),
            p3 == gf_mul_flat(s3, p4),
            p2 == gf_mul_flat(s2, p3),
            f == gf_mul_flat(s1, p2),
            r == gf_mul_flat(a, f),
    ;
}

/// The search from `start` finds an inverse when one lies at or after it.
proof fn lemma_search_finds(a: u8, start: int, w: u8)
    requires
        1 <= start <= w as int <= 255,
        spec_gf_mul(a, w) == 1,
    ensures
        gf_inv_search(a, start) != 0,
        spec_gf_mul(a, gf_inv_search(a, start)) == 1,
    decreases 256 - start,
{
    if spec_gf_mul(a, start as u8) != 1 {
        assert(start != w as int);
        lemma_search_finds(a, start + 1, w);
    }
}

/// Every nonzero field element has a multiplicative inverse, and
/// `spec_gf_inv` gives one.
pub proof fn law_gf_inverse(a: u8)
    requires
        a != 0,
    ensures
        spec_gf_inv(a) != 0,
        spec_gf_mul(a, spec_gf_inv(a)) == 1,
{
    lemma_fermat_inverse(a);
    lemma_search_finds(a, 1, gf_fermat_inv(a));
}

/// Multiplicative inverse in GF(2^8) by search over the 255 nonzero elements.
/// Returns 0 when no inverse exists (only for 0).
pub fn gf_inv(a: u8) -> (r: u8)
    ensures
        r == spec_gf_inv(a),
        r != 0 ==> spec_gf_mul(a, r) == 1,
        a != 0 ==> r != 0 && spec_gf_mul(a, r) == 1,
{
    proof {
        if a != 0 {
            law_gf_inverse(a);
        }
    }
    let mut i: u16 = 1;
    while i <= 255
        invariant
            1 <= i <= 256,
            gf_inv_search(a, i as int) == spec_gf_inv(a),
        decreases 256 - i,
    {
        if gf_mul(a, i as u8) == 1 {
            return i as u8;
        }
        i = i + 1;
    }
    0
}

/// Division in GF(2^8): `a * b^-1`.
pub fn gf_div(a: u8, b: u8) -> (r: u8)
    ensures
        r == spec_gf_div(a, b),
{
    gf_mul(a, gf_inv(b))
}

/// Multiplication by x is linear over XOR.
proof fn lemma_xtime_linear(a: u8, b: u8)
    ensures
        gf_xtime((a ^ b) as u8) == (gf_xtime(a) ^ gf_xtime(b)) as u8,
{
    assert(gf_xtime((a ^ b) as u8) == (gf_xtime(a) ^ gf_xtime(b)) as u8) by (bit_vector);
}

/// Field laws of GF(2^8): 1 is the identity and multiplication distributes
/// over XOR (the field addition).
pub proof fn law_gf_identity_distributive(a: u8, b: u8, c: u8)
    ensures
        spec_gf_mul(a, 1) == a,
        spec_gf_mul((a ^ b) as u8, c) == (spec_gf_mul(a, c) ^ spec_gf_mul(b, c)) as u8,
{
    lemma_gf_mul_flat(a, 1);
    lemma_gf_mul_flat((a ^ b) as u8, c);
    lemma_gf_mul_flat(a, c);
    lemma_gf_mul_flat(b, c);
    assert(gf_mul_flat(a, 1) == a) by (bit_vector);
    let x0 = a;
    let y0 = b;
    let z0 = (a ^ b) as u8;
    lemma_xtime_linear(x0, y0);
    let x1 = gf_xtime(x0);
    let y1 = gf_xtime(y0);
    let z1 = gf_xtime(z0);
    lemma_xtime_linear(x1, y1);
    let x2 = gf_xtime(x1);
    let y2 = gf_xtime(y1);
    let z2 = gf_xtime(z1);
    lemma_xtime_linear(x2, y2);
    let x3 = gf_xtime(x2);
    let y3 = gf_xtime(y2);
    let z3 = gf_xtime(z2);
    lemma_xtime_linear(x3, y3);
    let x4 = gf_xtime(x3);
    let y4 = gf_xtime(y3);
    let z4 = gf_xtime(z3);
    lemma_xtime_linear(x4, y4);
    let x5 = gf_xtime(x4);
    let y5 = gf_xtime(y4);
    let z5 = gf_xtime(z4);
    lemma_xtime_linear(x5, y5);
    let x6 = gf_xtime(x5);
    let y6 = gf_xtime(y5);
    let z6 = gf_xtime(z5);
    lemma_xtime_linear(x6, y6);
    let x7 = gf_xtime(x6);
    let y7 = gf_xtime(y6);
    let z7 = gf_xtime(z6);
    assert(gf_mul_flat(z0, c) == (gf_mul_flat(x0, c) ^ gf_mul_flat(y0, c)) as u8) by (bit_vector)
        requires
            z0 == (x0 ^ y0) as u8,
            x1 == gf_xtime(x0), y1 == gf_xtime(y0), z1 == gf_xtime(z0), z1 == (x1 ^ y1) as u8,
            x2 == gf_xtime(x1), y2 == gf_xtime(y1), z2 == gf_xtime(z1), z2 == (x2 ^ y2) as u8,
            x3 == gf_xtime(x2), y3 == gf_xtime(y2), z3 == gf_xtime(z2), z3 == (x3 ^ y3) as u8,
            x4 == gf_xtime(x3), y4 == gf_xtime(y3), z4 == gf_xtime(z3), z4 == (x4 ^ y4) as u8,
            x5 == gf_xtime(x4), y5 == gf_xtime(y4), z5 == gf_xtime(z4), z5 == (x5 ^ y5) as u8,
            x6 == gf_xtime(x5), y6 == gf_xtime(y5), z6 == gf_xtime(z5), z6 == (x6 ^ y6) as u8,
            x7 == gf_xtime(x6), y7 == gf_xtime(y6), z7 == gf_xtime(z6), z7 == (x7 ^ y7) as u8,
    ;
}

/// Multiplication in GF(2^8) commutes.
#[verifier::rlimit(100)]
pub proof fn law_gf_commutative(a: u8, b: u8)
    ensures
        spec_gf_mul(a, b) == spec_gf_mul(b, a),
{
    lemma_gf_mul_flat(a, b);
    lemma_gf_mul_flat(b, a);
    assert(gf_mul_flat(a, b) == gf_mul_flat(b, a)) by (bit_vector);
}

} // verus!

verus! {

/// The inverse search stops at the first `t` with `a * t == 1`.
proof fn lemma_inv_search_finds(a: u8, start: int, t: int)
    requires
        1 <= start <= t <= 255,
        forall|j: int| start <= j < t ==> #[trigger] spec_gf_mul(a, j as u8) != 1,
        spec_gf_mul(a, t as u8) == 1,
    ensures
        gf_inv_search(a, start) == t as u8,
    decreases t - start,
{
    if start < t {
        lemma_inv_search_finds(a, start + 1, t);
    }
}

/// Concrete products behind the inverses of 1, 2 and 3.
proof fn lemma_small_inverse_products(j: u8)
    by (bit_vector)
    ensures
        gf_mul_flat(1u8, 1u8) == 1u8,
        gf_mul_flat(2u8, 0x8Eu8) == 1u8,
        gf_mul_flat(3u8, 0xF4u8) == 1u8,
        1u8 <= j < 0x8Eu8 ==> gf_mul_flat(2u8, j) != 1u8,
        1u8 <= j < 0xF4u8 ==> gf_mul_flat(3u8, j) != 1u8,
{
}

/// The inverses of the three nonzero differences of share indices 1, 2, 3.
proof fn lemma_small_inverses()
    ensures
        spec_gf_inv(1) == 1u8,
        spec_gf_inv(2) == 0x8Eu8,
        spec_gf_inv(3) == 0xF4u8,
{
    lemma_small_inverse_products(0);
    lemma_gf_mul_flat(1, 1);
    lemma_gf_mul_flat(2, 0x8E);
    lemma_gf_mul_flat(3, 0xF4);
    lemma_inv_search_finds(1, 1, 1);
    assert forall|j: int| 1 <= j < 0x8E implies #[trigger] spec_gf_mul(2, j as u8) != 1 by {
        lemma_gf_mul_flat(2, j as u8);
        lemma_small_inverse_products(j as u8);
    }
    lemma_inv_search_finds(2, 1, 0x8E);
    assert forall|j: int| 1 <= j < 0xF4 implies #[trigger] spec_gf_mul(3, j as u8) != 1 by {
        lemma_gf_mul_flat(3, j as u8);
        lemma_small_inverse_products(j as u8);
    }
    lemma_inv_search_finds(3, 1, 0xF4);
}

/// Lagrange coefficient of share `xa` when interpolating at 0 from shares
/// `xa` and `xb`: `xb / (xa ^ xb)`.
pub open spec fn lagrange_at_zero(xa: u8, xb: u8) -> u8 {
    spec_gf_div(xb, (xa ^ xb) as u8)
}

/// The share value of index `x` on the line `P(x) = secret + coef * x`,
/// byte by byte, prefixed by `x`.
pub open spec fn shard_value(x: u8, secret: Seq<u8>, coef: Seq<u8>) -> Seq<u8> {
    seq![x] + Seq::new(KEY_LEN as nat, |i: int| (secret[i] ^ spec_gf_mul(coef[i], x)) as u8)
}

/// The secret interpolated at 0 from the first two shares.
pub open spec fn interpolate_pair(a: Seq<u8>, b: Seq<u8>) -> Seq<u8> {
    let la = lagrange_at_zero(a[0], b[0]);
    let lb = lagrange_at_zero(b[0], a[0]);
    Seq::new(
        KEY_LEN as nat,
        |i: int| (spec_gf_mul(a[1 + i], la) ^ spec_gf_mul(b[1 + i], lb)) as u8,
    )
}

/// Share indices used by the 2-of-3 split.
pub open spec fn is_share_index(x: u8) -> bool {
    1 <= x <= 3
}

/// The six ordered pairs of distinct share indices with the difference,
/// its inverse and the two Lagrange coefficients.
pub open spec fn share_pair_constants(xa: u8, xb: u8, d: u8, inv: u8, la: u8, lb: u8) -> bool {
    ||| (xa == 1u8 && xb == 2u8 && d == 3u8 && inv == 0xF4u8 && la == 0xF5u8 && lb == 0xF4u8)
    ||| (xa == 2u8 && xb == 1u8 && d == 3u8 && inv == 0xF4u8 && la == 0xF4u8 && lb == 0xF5u8)
    ||| (xa == 1u8 && xb == 3u8 && d == 2u8 && inv == 0x8Eu8 && la == 0x8Fu8 && lb == 0x8Eu8)
    ||| (xa == 3u8 && xb == 1u8 && d == 2u8 && inv == 0x8Eu8 && la == 0x8Eu8 && lb == 0x8Fu8)
    ||| (xa == 2u8 && xb == 3u8 && d == 1u8 && inv == 1u8 && la == 3u8 && lb == 2u8)
    ||| (xa == 3u8 && xb == 2u8 && d == 1u8 && inv == 1u8 && la == 2u8 && lb == 3u8)
}

/// XOR cancellation used to combine the interpolation terms.
proof fn lemma_xor_cancel(p: u8, q: u8, r: u8, s: u8)
    by (bit_vector)
    requires
        (p ^ q) as u8 == s,
    ensures
        ((p ^ r) as u8 ^ (q ^ r) as u8) as u8 == s,
{
}

/// One byte of the 2-of-3 scheme: two distinct shares interpolate back to the secret byte.
proof fn lemma_interpolate_byte(s: u8, c: u8, xa: u8, xb: u8)
    requires
        is_share_index(xa),
        is_share_index(xb),
        xa != xb,
    ensures
        (spec_gf_mul((s ^ spec_gf_mul(c, xa)) as u8, lagrange_at_zero(xa, xb)) ^ spec_gf_mul(
            (s ^ spec_gf_mul(c, xb)) as u8,
            lagrange_at_zero(xb, xa),
        )) as u8 == s,
{
    lemma_small_inverses();
    let (d, inv, la, lb): (u8, u8, u8, u8) = if xa == 1u8 && xb == 2u8 {
        (3u8, 0xF4u8, 0xF5u8, 0xF4u8)
    } else if xa == 2u8 && xb == 1u8 {
        (3u8, 0xF4u8, 0xF4u8, 0xF5u8)
    } else if xa == 1u8 && xb == 3u8 {
        (2u8, 0x8Eu8, 0x8Fu8, 0x8Eu8)
    } else if xa == 3u8 && xb == 1u8 {
        (2u8, 0x8Eu8, 0x8Eu8, 0x8Fu8)
    } else if xa == 2u8 && xb == 3u8 {
        (1u8, 1u8, 3u8, 2u8)
    } else {
        (1u8, 1u8, 2u8, 3u8)
    };
    assert(share_pair_constants(xa, xb, d, inv, la, lb));
    if xa == 1u8 && xb == 2u8 {
        assert({
            &&& ((1u8 ^ 2u8) as u8) == 3u8
            &&& ((2u8 ^ 1u8) as u8) == 3u8
            &&& gf_mul_flat(2u8, 0xf4u8) == 0xf5u8
            &&& gf_mul_flat(1u8, 0xf4u8) == 0xf4u8
            &&& gf_mul_flat(gf_mul_flat(c, 1u8), 0xf5u8) == gf_mul_flat(gf_mul_flat(c, 2u8), 0xf4u8)
            &&& (gf_mul_flat(s, 0xf5u8) ^ gf_mul_flat(s, 0xf4u8)) as u8 == s
        }) by (bit_vector);
    } else if xa == 2u8 && xb == 1u8 {
        assert({
            &&& ((2u8 ^ 1u8) as u8) == 3u8
            &&& ((1u8 ^ 2u8) as u8) == 3u8
            &&& gf_mul_flat(1u8, 0xf4u8) == 0xf4u8
            &&& gf_mul_flat(2u8, 0xf4u8) == 0xf5u8
            &&& gf_mul_flat(gf_mul_flat(c, 2u8), 0xf4u8) == gf_mul_flat(gf_mul_flat(c, 1u8), 0xf5u8)
            &&& (gf_mul_flat(s, 0xf4u8) ^ gf_mul_flat(s, 0xf5u8)) as u8 == s
        }) by (bit_vector);
    } else if xa == 1u8 && xb == 3u8 {
        assert({
            &&& ((1u8 ^ 3u8) as u8) == 2u8
            &&& ((3u8 ^ 1u8) as u8) == 2u8
            &&& gf_mul_flat(3u8, 0x8eu8) == 0x8fu8
            &&& gf_mul_flat(1u8, 0x8eu8) == 0x8eu8
            &&& gf_mul_flat(gf_mul_flat(c, 1u8), 0x8fu8) == gf_mul_flat(gf_mul_flat(c, 3u8), 0x8eu8)
            &&& (gf_mul_flat(s, 0x8fu8) ^ gf_mul_flat(s, 0x8eu8)) as u8 == s
        }) by (bit_vector);
    } else if xa == 3u8 && xb == 1u8 {
        assert({
            &&& ((3u8 ^ 1u8) as u8) == 2u8
            &&& ((1u8 ^ 3u8) as u8) == 2u8
            &&& gf_mul_flat(1u8, 0x8eu8) == 0x8eu8
            &&& gf_mul_flat(3u8, 0x8eu8) == 0x8fu8
            &&& gf_mul_flat(gf_mul_flat(c, 3u8), 0x8eu8) == gf_mul_flat(gf_mul_flat(c, 1u8), 0x8fu8)
            &&& (gf_mul_flat(s, 0x8eu8) ^ gf_mul_flat(s, 0x8fu8)) as u8 == s
        }) by (bit_vector);
    } else if xa == 2u8 && xb == 3u8 {
        assert({
            &&& ((2u8 ^ 3u8) as u8) == 1u8
            &&& ((3u8 ^ 2u8) as u8) == 1u8
            &&& gf_mul_flat(3u8, 0x01u8) == 0x03u8
            &&& gf_mul_flat(2u8, 0x01u8) == 0x02u8
            &&& gf_mul_flat(gf_mul_flat(c, 2u8), 0x03u8) == gf_mul_flat(gf_mul_flat(c, 3u8), 0x02u8)
            &&& (gf_mul_flat(s, 0x03u8) ^ gf_mul_flat(s, 0x02u8)) as u8 == s
        }) by (bit_vector);
    } else if xa == 3u8 && xb == 2u8 {
        assert({
            &&& ((3u8 ^ 2u8) as u8) == 1u8
            &&& ((2u8 ^ 3u8) as u8) == 1u8
            &&& gf_mul_flat(2u8, 0x01u8) == 0x02u8
            &&& gf_mul_flat(3u8, 0x01u8) == 0x03u8
            &&& gf_mul_flat(gf_mul_flat(c, 3u8), 0x02u8) == gf_mul_flat(gf_mul_flat(c, 2u8), 0x03u8)
            &&& (gf_mul_flat(s, 0x02u8) ^ gf_mul_flat(s, 0x03u8)) as u8 == s
        }) by (bit_vector);
    }
    assert(lagrange_at_zero(xa, xb) == la) by {
        lemma_gf_mul_flat(xb, inv);
    }
    assert(lagrange_at_zero(xb, xa) == lb) by {
        lemma_gf_mul_flat(xa, inv);
    }
    let cxa = spec_gf_mul(c, xa);
    let cxb = spec_gf_mul(c, xb);
    lemma_gf_mul_flat(c, xa);
    lemma_gf_mul_flat(c, xb);
    lemma_gf_mul_flat(cxa, la);
    lemma_gf_mul_flat(cxb, lb);
    lemma_gf_mul_flat(s, la);
    lemma_gf_mul_flat(s, lb);
    law_gf_identity_distributive(s, cxa, la);
    law_gf_identity_distributive(s, cxb, lb);
    lemma_xor_cancel(spec_gf_mul(s, la), spec_gf_mul(s, lb), spec_gf_mul(cxa, la), s);
}

/// Any two distinct shares of a 2-of-3 split reconstruct the secret.
pub proof fn law_any_two_shards_reconstruct(secret: Seq<u8>, coef: Seq<u8>, xa: u8, xb: u8)
    requires
        secret.len() == KEY_LEN,
        coef.len() == KEY_LEN,
        is_share_index(xa),
        is_share_index(xb),
        xa != xb,
    ensures
        interpolate_pair(shard_value(xa, secret, coef), shard_value(xb, secret, coef)) == secret,
{
    let a = shard_value(xa, secret, coef);
    let b = shard_value(xb, secret, coef);
    assert forall|i: int| 0 <= i < KEY_LEN implies #[trigger] interpolate_pair(a, b)[i]
        == secret[i] by {
        lemma_interpolate_byte(secret[i], coef[i], xa, xb);
    }
    assert(interpolate_pair(a, b) =~= secret);
}

} // verus!

verus! {

// ---------------------------------------------------------------------------
// Volatile AES-256 key
// ---------------------------------------------------------------------------

/// A 32-byte AES-256 key held for the minimum time.
pub struct VolatileKey {
    key: Vec<u8>,
}

impl View for VolatileKey {
    type V = Seq<u8>;

    closed spec fn view(&self) -> Seq<u8> {
        self.key@
    }
}

impl VolatileKey {
    #[verifier::type_invariant]
    spec fn inv(self) -> bool {
        self.key@.len() == KEY_LEN
    }

    /// Generate a fresh random single-use key.
    pub fn generate() -> (r: Result<Self, SnapError>)
        ensures
            r matches Ok(k) && k@.len() == KEY_LEN,
    {
        let key = random_bytes(KEY_LEN);
        Ok(VolatileKey { key })
    }

    /// Import an existing key; it must be exactly `KEY_LEN` bytes.
    pub fn from_bytes(bytes: &[u8]) -> (r: Result<Self, SnapError>)
        ensures
            bytes@.len() == KEY_LEN ==> (r matches Ok(k) && k@ == bytes@),
            bytes@.len() != KEY_LEN ==> r == Err::<Self, SnapError>(
                SnapError::KeyLength { got: bytes@.len() as usize },
            ),
    {
        if bytes.len() != KEY_LEN {
            return Err(SnapError::KeyLength { got: bytes.len() });
        }
        let key = slice_to_vec(bytes);
        Ok(VolatileKey { key })
    }

    /// The key bytes.
    pub fn as_bytes(&self) -> (r: &[u8])
        ensures
            r@ == self@,
            r@.len() == KEY_LEN,
    {
        proof {
            use_type_invariant(self);
        }
        self.key.as_slice()
    }

    /// AEAD-seal `plaintext` with this key under a fresh random nonce.
    /// Returns `(nonce, ciphertext)`.
    pub fn seal(&self, plaintext: &[u8]) -> (r: Result<(Vec<u8>, Vec<u8>), SnapError>)
        ensures
            r matches Ok((nonce, ct)) ==> nonce@.len() == 12 && ct@ == aes256gcm_seal(
                self@,
                nonce@,
                Seq::empty(),
                plaintext@,
            ) && aes256gcm_open(self@, nonce@, Seq::empty(), ct@) == Some(plaintext@),
            plaintext@.len() <= aes_gcm_max_len() ==> r is Ok,
            r is Err ==> r matches Err(SnapError::Aes(_)),
    {
        proof {
            use_type_invariant(self);
        }
        let nonce = random_bytes(12);
        let aad: Vec<u8> = Vec::new();
        match aes256gcm_encrypt(self.key.as_slice(), nonce.as_slice(), aad.as_slice(), plaintext) {
            Some(ct) => Ok((nonce, ct)),
            None => Err(SnapError::Aes("aead::Error".to_string())),
        }
    }

    /// AEAD-open a `(nonce, ciphertext)` pair sealed with `key`.
    pub fn open(nonce: &[u8], ct: &[u8], key: &VolatileKey) -> (r: Result<Vec<u8>, SnapError>)
        ensures
            nonce@.len() != 12 ==> r matches Err(SnapError::Aes(_)),
            nonce@.len() == 12 ==> match aes256gcm_open(key@, nonce@, Seq::empty(), ct@) {
                Some(pt) => r matches Ok(v) && v@ == pt,
                None => r matches Err(SnapError::Aes(_)),
            },
    {
        proof {
            use_type_invariant(key);
        }
        if nonce.len() != 12 {
            return Err(SnapError::Aes("bad nonce length".to_string()));
        }
        let aad: Vec<u8> = Vec::new();
        match aes256gcm_decrypt(key.key.as_slice(), nonce, aad.as_slice(), ct) {
            Some(pt) => Ok(pt),
            None => Err(SnapError::Aes("aead::Error".to_string())),
        }
    }
}

// ---------------------------------------------------------------------------
// Shards
// ---------------------------------------------------------------------------

/// A single Shamir share: byte 0 is `x` (share index), bytes 1.. are `y`.
pub struct Shard {
    data: Vec<u8>,
}

impl View for Shard {
    type V = Seq<u8>;

    closed spec fn view(&self) -> Seq<u8> {
        self.data@
    }
}

impl Shard {
    #[verifier::type_invariant]
    spec fn inv(self) -> bool {
        self.data@.len() == SHARD_LEN
    }

    /// Build a share from its `x` index and 32-byte `y` value.
    pub fn new(x: u8, y: [u8; KEY_LEN]) -> (s: Self)
        ensures
            s@ == seq![x] + y@,
    {
        let mut data: Vec<u8> = Vec::with_capacity(SHARD_LEN);
        data.push(x);
        let mut i: usize = 0;
        while i < KEY_LEN
            invariant
                i <= KEY_LEN,
                data@ == seq![x] + y@.subrange(0, i as int),
            decreases KEY_LEN - i,
        {
            data.push(y[i]);
            i = i + 1;
        }
        assert(y@.subrange(0, KEY_LEN as int) == y@);
        Shard { data }
    }

    /// The share index.
    pub fn x(&self) -> (r: u8)
        ensures
            r == self@[0],
    {
        proof {
            use_type_invariant(self);
        }
        self.data[0]
    }

    /// The 32-byte share value.
    pub fn y(&self) -> (r: &[u8])
        ensures
            r@ == self@.subrange(1, SHARD_LEN as int),
    {
        proof {
            use_type_invariant(self);
        }
        &self.data.as_slice()[1..SHARD_LEN]
    }

    /// The whole shard, `x` followed by `y`.
    pub fn as_bytes(&self) -> (r: &[u8])
        ensures
            r@ == self@,
            r@.len() == SHARD_LEN,
    {
        proof {
            use_type_invariant(self);
        }
        self.data.as_slice()
    }

    /// Rebuild a shard from raw `SHARD_LEN` bytes (e.g. read back from a provider).
    pub fn from_bytes(bytes: &[u8]) -> (r: Result<Self, SnapError>)
        ensures
            bytes@.len() == SHARD_LEN ==> (r matches Ok(s) && s@ == bytes@),
            bytes@.len() != SHARD_LEN ==> r == Err::<Self, SnapError>(
                SnapError::KeyLength { got: bytes@.len() as usize },
            ),
    {
        if bytes.len() != SHARD_LEN {
            return Err(SnapError::KeyLength { got: bytes.len() });
        }
        Ok(Shard { data: slice_to_vec(bytes) })
    }
}

// ---------------------------------------------------------------------------
// 2-of-3 split / reconstruct
// ---------------------------------------------------------------------------

/// Split `key` into 3 shares with indices 1, 2, 3 on a random line
/// `P(x) = secret ^ coef * x` (one random coefficient byte per key byte).
pub fn split_key(key: &VolatileKey) -> (shards: [Shard; 3])
    ensures
        exists|coef: Seq<u8>|
            coef.len() == KEY_LEN && shards[0]@ == shard_value(1, key@, coef) && shards[1]@
                == shard_value(2, key@, coef) && shards[2]@ == shard_value(3, key@, coef),
{
    let a = random_bytes(KEY_LEN);
    let secret = key.as_bytes();
    let s1 = split_one(secret, a.as_slice(), 1);
    let s2 = split_one(secret, a.as_slice(), 2);
    let s3 = split_one(secret, a.as_slice(), 3);
    [s1, s2, s3]
}

/// The share of index `x` for `secret` and coefficients `coef`.
fn split_one(secret: &[u8], coef: &[u8], x: u8) -> (s: Shard)
    requires
        secret@.len() == KEY_LEN,
        coef@.len() == KEY_LEN,
    ensures
        s@ == shard_value(x, secret@, coef@),
{
    let mut data: Vec<u8> = Vec::with_capacity(SHARD_LEN);
    data.push(x);
    let mut i: usize = 0;
    while i < KEY_LEN
        invariant
            i <= KEY_LEN,
            secret@.len() == KEY_LEN,
            coef@.len() == KEY_LEN,
            data@.len() == 1 + i,
            data@[0] == x,
            forall|j: int| 0 <= j < i ==> #[trigger] data@[1 + j] == (secret@[j] ^ spec_gf_mul(coef@[j], x)) as u8,
        decreases KEY_LEN - i,
    {
        let y = secret[i] ^ gf_mul(coef[i], x);
        data.push(y);
        i = i + 1;
    }
    let ghost sv = shard_value(x, secret@, coef@);
    assert forall|k: int| 0 <= k < SHARD_LEN implies data@[k] == sv[k] by {
        if k > 0 {
            let j = k - 1;
            assert(data@[1 + j] == (secret@[j] ^ spec_gf_mul(coef@[j], x)) as u8);
        }
    }
    assert(data@ =~= sv);
    Shard { data }
}

/// Reconstruct the key from the first two shares by Lagrange interpolation
/// at 0.  Fails when fewer than two shares are given.
pub fn reconstruct(shards: &[Shard]) -> (r: Result<VolatileKey, SnapError>)
    ensures
        shards@.len() < 2 ==> r == Err::<VolatileKey, SnapError>(
            SnapError::InsufficientShards { have: shards@.len() as usize },
        ),
        shards@.len() >= 2 ==> (r matches Ok(k) && k@ == interpolate_pair(shards@[0]@, shards@[1]@)),
{
    if shards.len() < 2 {
        return Err(SnapError::InsufficientShards { have: shards.len() });
    }
    let a = &shards[0];
    let b = &shards[1];
    proof {
        use_type_invariant(a);
        use_type_invariant(b);
    }
    let xa = a.x();
    let xb = b.x();
    let denom = xa ^ xb;
    let lambda_a = gf_div(xb, denom);
    let lambda_b = gf_div(xa, denom);
    assert(denom == (xb ^ xa) as u8) by (bit_vector)
        requires denom == (xa ^ xb) as u8;
    let ya = a.y();
    let yb = b.y();
    let mut secret: Vec<u8> = Vec::with_capacity(KEY_LEN);
    let mut i: usize = 0;
    while i < KEY_LEN
        invariant
            i <= KEY_LEN,
            a@.len() == SHARD_LEN,
            b@.len() == SHARD_LEN,
            ya@.len() == KEY_LEN,
            yb@.len() == KEY_LEN,
            ya@ == a@.subrange(1, SHARD_LEN as int),
            yb@ == b@.subrange(1, SHARD_LEN as int),
            lambda_a == lagrange_at_zero(a@[0], b@[0]),
            lambda_b == lagrange_at_zero(b@[0], a@[0]),
            secret@.len() == i,
            forall|j: int| 0 <= j < i ==> #[trigger] secret@[j] == interpolate_pair(a@, b@)[j],
        decreases KEY_LEN - i,
    {
        let v = gf_mul(ya[i], lambda_a) ^ gf_mul(yb[i], lambda_b);
        secret.push(v);
        i = i + 1;
    }
    assert(secret@ =~= interpolate_pair(a@, b@));
    VolatileKey::from_bytes(secret.as_slice())
}

/// Like [`reconstruct`] for callers that hold at least two shares (a missing
/// shard at boot is a fatal misconfiguration, so fewer is not accepted here).
pub fn reconstruct_or_panic(shards: &[Shard]) -> (k: VolatileKey)
    requires
        shards@.len() >= 2,
    ensures
        k@ == interpolate_pair(shards@[0]@, shards@[1]@),
{
    match reconstruct(shards) {
        Ok(k) => k,
        Err(_) => {
            assert(false);
            VolatileKey { key: Vec::new() }
        },
    }
}

/// The `idx`-th share, for handing to provider `idx`.
pub fn shard_for_provider(shards: &[Shard; 3], idx: usize) -> (r: &Shard)
    requires
        idx < 3,
    ensures
        r@ == shards[idx as int]@,
{
    &shards[idx]
}

} // verus!

verus! {

// ---------------------------------------------------------------------------
// Pinned sensitive buffer and the bootstrap kit
// ---------------------------------------------------------------------------

/// A sensitive byte buffer (e.g. ML-DSA-87 identity material).
pub struct PinnedBytes {
    buf: Vec<u8>,
}

impl View for PinnedBytes {
    type V = Seq<u8>;

    closed spec fn view(&self) -> Seq<u8> {
        self.buf@
    }
}

impl PinnedBytes {
    /// Copy `bytes` into a new buffer.
    pub fn new(bytes: &[u8]) -> (p: Self)
        ensures
            p@ == bytes@,
    {
        PinnedBytes { buf: slice_to_vec(bytes) }
    }

    /// The buffered bytes.
    pub fn as_bytes(&self) -> (r: &[u8])
        ensures
            r@ == self@,
    {
        self.buf.as_slice()
    }
}

/// A volatile AES-256 key plus its 3 shares.
pub struct SecKit {
    key: VolatileKey,
    shards: [Shard; 3],
}

impl SecKit {
    /// The key the kit holds.
    pub closed spec fn key_view(&self) -> Seq<u8> {
        self.key@
    }

    /// The `i`-th share the kit holds.
    pub closed spec fn shard_view(&self, i: int) -> Seq<u8> {
        self.shards[i]@
    }

    /// The kit is a 2-of-3 split of its key.
    pub open spec fn is_split(&self) -> bool {
        exists|coef: Seq<u8>|
            coef.len() == KEY_LEN && #[trigger] self.shard_view(0) == shard_value(1, self.key_view(), coef)
                && self.shard_view(1) == shard_value(2, self.key_view(), coef) && self.shard_view(2)
                == shard_value(3, self.key_view(), coef)
    }

    /// Generate a fresh volatile key and split it 2-of-3.
    pub fn generate() -> (r: Result<Self, SnapError>)
        ensures
            r matches Ok(kit) && kit.key_view().len() == KEY_LEN && kit.is_split(),
    {
        let key = VolatileKey::generate()?;
        let ghost kv = key@;
        let shards = split_key(&key);
        let kit = SecKit { key, shards };
        assert(kit.key_view() == kv);
        Ok(kit)
    }

    /// Recover the key from two surviving shares and re-split it so that all
    /// three shares are fresh.
    pub fn from_recovered(found: &[Shard]) -> (kit: Self)
        requires
            found@.len() >= 2,
        ensures
            kit.key_view() == interpolate_pair(found@[0]@, found@[1]@),
            kit.is_split(),
    {
        let key = reconstruct_or_panic(found);
        let shards = split_key(&key);
        SecKit { key, shards }
    }

    /// The bytes of share `i`, for persisting to provider `i`.
    pub fn shard_bytes(&self, i: usize) -> (r: &[u8])
        requires
            i < 3,
        ensures
            r@ == self.shard_view(i as int),
    {
        self.shards[i].as_bytes()
    }

    /// Consume the kit, returning the volatile key.
    pub fn into_key(self) -> (k: VolatileKey)
        ensures
            k@ == self.key_view(),
    {
        self.key
    }

    /// Discard the key and shards now (e.g. on graceful shutdown).
    pub fn forget(self) {
    }
}

} // verus!
