//! Big-endian integer encodings and fixed-size byte arrays used by the wire formats.
use vstd::prelude::*;

verus! {

/// The 8-byte big-endian encoding of `x`.
pub open spec fn u64_be(x: u64) -> Seq<u8> {
    seq![
        (x / 0x100000000000000) as u8,
        ((x / 0x1000000000000) % 256) as u8,
        ((x / 0x10000000000) % 256) as u8,
        ((x / 0x100000000) % 256) as u8,
        ((x / 0x1000000) % 256) as u8,
        ((x / 0x10000) % 256) as u8,
        ((x / 0x100) % 256) as u8,
        (x % 256) as u8,
    ]
}

/// The number that 8 big-endian bytes encode.
pub open spec fn be_u64(b: Seq<u8>) -> u64 {
    (b[0] as int * 0x100000000000000 + b[1] as int * 0x1000000000000 + b[2] as int * 0x10000000000
        + b[3] as int * 0x100000000 + b[4] as int * 0x1000000 + b[5] as int * 0x10000 + b[6] as int
        * 0x100 + b[7] as int) as u64
}

/// The 2-byte big-endian encoding of `x`.
pub open spec fn u16_be(x: u16) -> Seq<u8> {
    seq![(x / 256) as u8, (x % 256) as u8]
}

/// Decoding an encoding gives the number back.
pub proof fn lemma_u64_be_roundtrip(x: u64)
    ensures
        be_u64(u64_be(x)) == x,
        u64_be(x).len() == 8,
{
    let v = x as int;
    let q1 = v / 0x100;
    let q2 = v / 0x10000;
    let q3 = v / 0x1000000;
    let q4 = v / 0x100000000;
    let q5 = v / 0x10000000000;
    let q6 = v / 0x1000000000000;
    let q7 = v / 0x100000000000000;
    assert(q2 == q1 / 0x100);
    assert(q3 == q2 / 0x100);
    assert(q4 == q3 / 0x100);
    assert(q5 == q4 / 0x100);
    assert(q6 == q5 / 0x100);
    assert(q7 == q6 / 0x100);
    assert(q7 < 256);
    assert(v == q1 * 0x100 + v % 256);
    assert(q1 == q2 * 0x100 + q1 % 256);
    assert(q2 == q3 * 0x100 + q2 % 256);
    assert(q3 == q4 * 0x100 + q3 % 256);
    assert(q4 == q5 * 0x100 + q4 % 256);
    assert(q5 == q6 * 0x100 + q5 % 256);
    assert(q6 == q7 * 0x100 + q6 % 256);
}

/// `x` as 8 big-endian bytes.
pub fn u64_to_be(x: u64) -> (r: Vec<u8>)
    ensures
        r@ == u64_be(x),
{
    let mut r: Vec<u8> = Vec::new();
    r.push((x / 0x100000000000000) as u8);
    r.push(((x / 0x1000000000000) % 256) as u8);
    r.push(((x / 0x10000000000) % 256) as u8);
    r.push(((x / 0x100000000) % 256) as u8);
    r.push(((x / 0x1000000) % 256) as u8);
    r.push(((x / 0x10000) % 256) as u8);
    r.push(((x / 0x100) % 256) as u8);
    r.push((x % 256) as u8);
    assert(r@ =~= u64_be(x));
    r
}

/// The number that 8 big-endian bytes at `off` encode.
pub fn be_to_u64(b: &[u8], off: usize) -> (x: u64)
    requires
        off + 8 <= b@.len(),
    ensures
        x == be_u64(b@.subrange(off as int, off + 8)),
{
    let x: u64 = (b[off] as u64) * 0x100000000000000 + (b[off + 1] as u64) * 0x1000000000000 + (b[off + 2] as u64)
        * 0x10000000000 + (b[off + 3] as u64) * 0x100000000 + (b[off + 4] as u64) * 0x1000000 + (b[off + 5] as u64)
        * 0x10000 + (b[off + 6] as u64) * 0x100 + (b[off + 7] as u64);
    x
}

/// `x` as 2 big-endian bytes.
pub fn u16_to_be(x: u16) -> (r: Vec<u8>)
    ensures
        r@ == u16_be(x),
{
    let mut r: Vec<u8> = Vec::new();
    r.push((x / 256) as u8);
    r.push((x % 256) as u8);
    assert(r@ =~= u16_be(x));
    r
}

/// The 32 bytes of `v` as an array.
pub fn to_array32(v: &[u8]) -> (a: [u8; 32])
    requires
        v@.len() == 32,
    ensures
        a@ == v@,
{
    let mut a = [0u8; 32];
    for i in 0..32
        invariant
            v@.len() == 32,
            forall|j: int| 0 <= j < i ==> a@[j] == v@[j],
    {
        a[i] = v[i];
    }
    assert(a@ =~= v@);
    a
}

/// The 12 bytes of `v` as an array.
pub fn to_array12(v: &[u8]) -> (a: [u8; 12])
    requires
        v@.len() == 12,
    ensures
        a@ == v@,
{
    let mut a = [0u8; 12];
    for i in 0..12
        invariant
            v@.len() == 12,
            forall|j: int| 0 <= j < i ==> a@[j] == v@[j],
    {
        a[i] = v[i];
    }
    assert(a@ =~= v@);
    a
}

/// The 64 bytes of `v` as an array.
pub fn to_array64(v: &[u8]) -> (a: [u8; 64])
    requires
        v@.len() == 64,
    ensures
        a@ == v@,
{
    let mut a = [0u8; 64];
    for i in 0..64
        invariant
            v@.len() == 64,
            forall|j: int| 0 <= j < i ==> a@[j] == v@[j],
    {
        a[i] = v[i];
    }
    assert(a@ =~= v@);
    a
}

/// The 96 bytes of `v` as an array.
pub fn to_array96(v: &[u8]) -> (a: [u8; 96])
    requires
        v@.len() == 96,
    ensures
        a@ == v@,
{
    let mut a = [0u8; 96];
    for i in 0..96
        invariant
            v@.len() == 96,
            forall|j: int| 0 <= j < i ==> a@[j] == v@[j],
    {
        a[i] = v[i];
    }
    assert(a@ =~= v@);
    a
}

} // verus!
