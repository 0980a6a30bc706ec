//! Unsigned integers as big-endian bytes, the byte order of every number in
//! a frame.
use vstd::prelude::*;

verus! {

/// The four bytes of `x`, most significant first.
pub open spec fn be_u32(x: u32) -> Seq<u8> {
    seq![
        ((x >> 24) & 0xff) as u8,
        ((x >> 16) & 0xff) as u8,
        ((x >> 8) & 0xff) as u8,
        (x & 0xff) as u8,
    ]
}

/// The eight bytes of `x`, most significant first.
pub open spec fn be_u64(x: u64) -> Seq<u8> {
    seq![
        ((x >> 56) & 0xff) as u8,
        ((x >> 48) & 0xff) as u8,
        ((x >> 40) & 0xff) as u8,
        ((x >> 32) & 0xff) as u8,
        ((x >> 24) & 0xff) as u8,
        ((x >> 16) & 0xff) as u8,
        ((x >> 8) & 0xff) as u8,
        (x & 0xff) as u8,
    ]
}

/// The number that four bytes stand for, most significant first.
pub open spec fn u32_of_be(s: Seq<u8>) -> u32
    recommends
        s.len() == 4,
{
    (s[0] as u32) << 24 | (s[1] as u32) << 16 | (s[2] as u32) << 8 | (s[3] as u32)
}

/// The number that eight bytes stand for, most significant first.
pub open spec fn u64_of_be(s: Seq<u8>) -> u64
    recommends
        s.len() == 8,
{
    (s[0] as u64) << 56 | (s[1] as u64) << 48 | (s[2] as u64) << 40 | (s[3] as u64) << 32 | (
    s[4] as u64) << 24 | (s[5] as u64) << 16 | (s[6] as u64) << 8 | (s[7] as u64)
}

/// Reading back the bytes of a 32-bit number gives the number.
pub proof fn lemma_u32_of_be_u32(x: u32)
    ensures
        be_u32(x).len() == 4,
        u32_of_be(be_u32(x)) == x,
{
    assert((((x >> 24) & 0xff) as u8 as u32) << 24 | (((x >> 16) & 0xff) as u8 as u32) << 16 | (((x
        >> 8) & 0xff) as u8 as u32) << 8 | ((x & 0xff) as u8 as u32) == x) by (bit_vector);
}

/// Reading back the bytes of a 64-bit number gives the number.
pub proof fn lemma_u64_of_be_u64(x: u64)
    ensures
        be_u64(x).len() == 8,
        u64_of_be(be_u64(x)) == x,
{
    assert((((x >> 56) & 0xff) as u8 as u64) << 56 | (((x >> 48) & 0xff) as u8 as u64) << 48 | (((x
        >> 40) & 0xff) as u8 as u64) << 40 | (((x >> 32) & 0xff) as u8 as u64) << 32 | (((x >> 24)
        & 0xff) as u8 as u64) << 24 | (((x >> 16) & 0xff) as u8 as u64) << 16 | (((x >> 8) & 0xff) as u8 as u64)
        << 8 | ((x & 0xff) as u8 as u64) == x) by (bit_vector);
}

/// Writing out the number that four bytes stand for gives the bytes.
pub proof fn lemma_be_u32_of_be(s: Seq<u8>)
    requires
        s.len() == 4,
    ensures
        be_u32(u32_of_be(s)) == s,
{
    let (a, b, c, d) = (s[0], s[1], s[2], s[3]);
    let x = u32_of_be(s);
    assert(x == (a as u32) << 24 | (b as u32) << 16 | (c as u32) << 8 | (d as u32));
    assert(((x >> 24) & 0xff) as u8 == a && ((x >> 16) & 0xff) as u8 == b && ((x >> 8) & 0xff) as u8
        == c && (x & 0xff) as u8 == d) by (bit_vector)
        requires
            x == (a as u32) << 24 | (b as u32) << 16 | (c as u32) << 8 | (d as u32),
    ;
    assert(be_u32(x) =~= s);
}

/// Writing out the number that eight bytes stand for gives the bytes.
pub proof fn lemma_be_u64_of_be(s: Seq<u8>)
    requires
        s.len() == 8,
    ensures
        be_u64(u64_of_be(s)) == s,
{
    let (a, b, c, d) = (s[0], s[1], s[2], s[3]);
    let (e, f, g, h) = (s[4], s[5], s[6], s[7]);
    let x = u64_of_be(s);
    assert(x == (a as u64) << 56 | (b as u64) << 48 | (c as u64) << 40 | (d as u64) << 32 | (
    e as u64) << 24 | (f as u64) << 16 | (g as u64) << 8 | (h as u64));
    assert(((x >> 56) & 0xff) as u8 == a && ((x >> 48) & 0xff) as u8 == b && ((x >> 40) & 0xff) as u8
        == c && ((x >> 32) & 0xff) as u8 == d && ((x >> 24) & 0xff) as u8 == e && ((x >> 16)
        & 0xff) as u8 == f && ((x >> 8) & 0xff) as u8 == g && (x & 0xff) as u8 == h)
        by (bit_vector)
        requires
            x == (a as u64) << 56 | (b as u64) << 48 | (c as u64) << 40 | (d as u64) << 32 | (
            e as u64) << 24 | (f as u64) << 16 | (g as u64) << 8 | (h as u64),
    ;
    assert(be_u64(x) =~= s);
}

/// Appends the four bytes of `x` to `out`, most significant first.
pub fn put_u32(out: &mut Vec<u8>, x: u32)
    ensures
        final(out)@ == old(out)@ + be_u32(x),
{
    assert(((x >> 24) & 0xff) < 256 && ((x >> 16) & 0xff) < 256 && ((x >> 8) & 0xff) < 256 && (x
        & 0xff) < 256) by (bit_vector);
    out.push(((x >> 24) & 0xff) as u8);
    out.push(((x >> 16) & 0xff) as u8);
    out.push(((x >> 8) & 0xff) as u8);
    out.push((x & 0xff) as u8);
    assert(out@ =~= old(out)@ + be_u32(x));
}

/// Appends the eight bytes of `x` to `out`, most significant first.
pub fn put_u64(out: &mut Vec<u8>, x: u64)
    ensures
        final(out)@ == old(out)@ + be_u64(x),
{
    assert(((x >> 56) & 0xff) < 256 && ((x >> 48) & 0xff) < 256 && ((x >> 40) & 0xff) < 256 && ((x
        >> 32) & 0xff) < 256 && ((x >> 24) & 0xff) < 256 && ((x >> 16) & 0xff) < 256 && ((x >> 8)
        & 0xff) < 256 && (x & 0xff) < 256) by (bit_vector);
    out.push(((x >> 56) & 0xff) as u8);
    out.push(((x >> 48) & 0xff) as u8);
    out.push(((x >> 40) & 0xff) as u8);
    out.push(((x >> 32) & 0xff) as u8);
    out.push(((x >> 24) & 0xff) as u8);
    out.push(((x >> 16) & 0xff) as u8);
    out.push(((x >> 8) & 0xff) as u8);
    out.push((x & 0xff) as u8);
    assert(out@ =~= old(out)@ + be_u64(x));
}

/// Reads the 32-bit number that stands at `at` in `bytes`.
pub fn get_u32(bytes: &[u8], at: usize) -> (x: u32)
    requires
        at + 4 <= bytes@.len(),
    ensures
        x == u32_of_be(bytes@.subrange(at as int, at + 4)),
{
    (bytes[at] as u32) << 24 | (bytes[at + 1] as u32) << 16 | (bytes[at + 2] as u32) << 8 | (
    bytes[at + 3] as u32)
}

/// Reads the 64-bit number that stands at `at` in `bytes`.
pub fn get_u64(bytes: &[u8], at: usize) -> (x: u64)
    requires
        at + 8 <= bytes@.len(),
    ensures
        x == u64_of_be(bytes@.subrange(at as int, at + 8)),
{
    (bytes[at] as u64) << 56 | (bytes[at + 1] as u64) << 48 | (bytes[at + 2] as u64) << 40 | (
    bytes[at + 3] as u64) << 32 | (bytes[at + 4] as u64) << 24 | (bytes[at + 5] as u64) << 16 | (
    bytes[at + 6] as u64) << 8 | (bytes[at + 7] as u64)
}

} // verus!
