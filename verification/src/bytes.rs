//! Byte-string helpers used by the wire formats.

use vstd::prelude::*;

verus! {

/// Appends `s` to `v`.
pub fn push_all(v: &mut Vec<u8>, s: &[u8])
    ensures
        final(v)@ == old(v)@ + s@,
{
    let ghost start = v@;
    let mut i: usize = 0;
    while i < s.len()
        invariant
            i <= s@.len(),
            v@ == start + s@.take(i as int),
        decreases s@.len() - i,
    {
        v.push(s[i]);
        i = i + 1;
        assert(s@.take(i as int) =~= s@.take((i - 1) as int).push(s@[i - 1]));
    }
    assert(s@.take(s@.len() as int) =~= s@);
}

/// A copy of `s[start..end]`.
pub fn copy_range(s: &[u8], start: usize, end: usize) -> (r: Vec<u8>)
    requires
        start <= end <= s@.len(),
    ensures
        r@ == s@.subrange(start as int, end as int),
{
    let mut r: Vec<u8> = Vec::new();
    push_all(&mut r, &s[start..end]);
    assert(r@ =~= s@.subrange(start as int, end as int));
    r
}

/// `n` zero bytes.
pub open spec fn zeros(n: nat) -> Seq<u8> {
    Seq::new(n, |i: int| 0u8)
}

/// Appends zeros until `v` is `len` long (`Vec::resize(len, 0)` on a shorter vector).
pub fn pad_zeros(v: &mut Vec<u8>, len: usize)
    requires
        old(v)@.len() <= len,
    ensures
        final(v)@ == old(v)@ + zeros((len - old(v)@.len()) as nat),
{
    let ghost start = v@;
    while v.len() < len
        invariant
            start.len() <= v@.len() <= len,
            v@ == start + zeros((v@.len() - start.len()) as nat),
        decreases len - v@.len(),
    {
        v.push(0u8);
        assert(v@ =~= start + zeros((v@.len() - start.len()) as nat));
    }
}

/// Big-endian bytes of a `u32`.
pub open spec fn be32(x: u32) -> Seq<u8> {
    seq![(x / 0x100_0000) as u8, ((x / 0x1_0000) % 256) as u8, ((x / 0x100) % 256) as u8, (x % 256) as u8]
}

/// The `u32` written big-endian in four bytes.
pub open spec fn be32_value(b: Seq<u8>) -> u32 {
    (b[0] as int * 0x100_0000 + b[1] as int * 0x1_0000 + b[2] as int * 0x100 + b[3] as int) as u32
}

/// Big-endian bytes of a `u64`.
pub open spec fn be64(x: u64) -> Seq<u8> {
    seq![
        (x / 0x100_0000_0000_0000) as u8,
        ((x / 0x1_0000_0000_0000) % 256) as u8,
        ((x / 0x100_0000_0000) % 256) as u8,
        ((x / 0x1_0000_0000) % 256) as u8,
        ((x / 0x100_0000) % 256) as u8,
        ((x / 0x1_0000) % 256) as u8,
        ((x / 0x100) % 256) as u8,
        (x % 256) as u8,
    ]
}

/// `x.to_be_bytes()` for a `u32`.
pub fn u32_to_be(x: u32) -> (r: Vec<u8>)
    ensures
        r@ == be32(x),
{
    let mut r: Vec<u8> = Vec::new();
    r.push((x / 0x100_0000) as u8);
    r.push(((x / 0x1_0000) % 256) as u8);
    r.push(((x / 0x100) % 256) as u8);
    r.push((x % 256) as u8);
    assert(r@ =~= be32(x));
    r
}

/// `x.to_be_bytes()` for a `u64`.
pub fn u64_to_be(x: u64) -> (r: Vec<u8>)
    ensures
        r@ == be64(x),
{
    let mut r: Vec<u8> = Vec::new();
    r.push((x / 0x100_0000_0000_0000) as u8);
    r.push(((x / 0x1_0000_0000_0000) % 256) as u8);
    r.push(((x / 0x100_0000_0000) % 256) as u8);
    r.push(((x / 0x1_0000_0000) % 256) as u8);
    r.push(((x / 0x100_0000) % 256) as u8);
    r.push(((x / 0x1_0000) % 256) as u8);
    r.push(((x / 0x100) % 256) as u8);
    r.push((x % 256) as u8);
    assert(r@ =~= be64(x));
    r
}

/// `u32::from_be_bytes` on the first four bytes.
pub fn u32_from_be(b: &[u8]) -> (x: u32)
    requires
        b@.len() >= 4,
    ensures
        x == be32_value(b@),
{
    let x: u64 = b[0] as u64 * 0x100_0000 + b[1] as u64 * 0x1_0000 + b[2] as u64 * 0x100 + b[3] as u64;
    x as u32
}

/// Reading back what `be32` wrote.
pub proof fn lemma_be32_roundtrip(x: u32)
    ensures
        be32_value(be32(x)) == x,
{
    let b = be32(x);
    assert(b[0] as int == x / 0x100_0000);
    assert(b[1] as int == (x / 0x1_0000) % 256);
    assert(b[2] as int == (x / 0x100) % 256);
    assert(b[3] as int == x % 256);
    assert((x / 0x100_0000) * 0x100_0000 + ((x / 0x1_0000) % 256) * 0x1_0000 + ((x / 0x100) % 256) * 0x100 + x % 256 == x) by (nonlinear_arith);
}

} // verus!
