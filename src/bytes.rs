//! Little-endian integers in byte sequences.
use vstd::prelude::*;

verus! {

/// The `u16` stored little-endian at `s[off..off + 2]`.
pub open spec fn u16_at(s: Seq<u8>, off: int) -> u16 {
    (s[off] as u16) | ((s[off + 1] as u16) << 8u16)
}

/// The `u32` stored little-endian at `s[off..off + 3]` (three bytes).
pub open spec fn u24_at(s: Seq<u8>, off: int) -> u32 {
    (s[off] as u32) | ((s[off + 1] as u32) << 8u32) | ((s[off + 2] as u32) << 16u32)
}

/// The `u32` stored little-endian at `s[off..off + 4]`.
pub open spec fn u32_at(s: Seq<u8>, off: int) -> u32 {
    (s[off] as u32) | ((s[off + 1] as u32) << 8u32) | ((s[off + 2] as u32) << 16u32) | ((s[off
        + 3] as u32) << 24u32)
}

/// The `u64` stored little-endian at `s[off..off + 8]`.
pub open spec fn u64_at(s: Seq<u8>, off: int) -> u64 {
    (u32_at(s, off) as u64) | ((u32_at(s, off + 4) as u64) << 32u64)
}

/// Little-endian bytes of `x`.
pub open spec fn le16(x: u16) -> Seq<u8> {
    seq![x as u8, (x >> 8u16) as u8]
}

/// The low three little-endian bytes of `x`.
pub open spec fn le24(x: u32) -> Seq<u8> {
    seq![x as u8, (x >> 8u32) as u8, (x >> 16u32) as u8]
}

/// Little-endian bytes of `x`.
pub open spec fn le32(x: u32) -> Seq<u8> {
    seq![x as u8, (x >> 8u32) as u8, (x >> 16u32) as u8, (x >> 24u32) as u8]
}

/// Little-endian bytes of `x`.
pub open spec fn le64(x: u64) -> Seq<u8> {
    le32(x as u32) + le32((x >> 32u64) as u32)
}

pub fn read_u16(b: &[u8], off: usize) -> (r: u16)
    requires
        off + 2 <= b.len(),
    ensures
        r == u16_at(b@, off as int),
{
    (b[off] as u16) | ((b[off + 1] as u16) << 8u16)
}

pub fn read_u24(b: &[u8], off: usize) -> (r: u32)
    requires
        off + 3 <= b.len(),
    ensures
        r == u24_at(b@, off as int),
{
    (b[off] as u32) | ((b[off + 1] as u32) << 8u32) | ((b[off + 2] as u32) << 16u32)
}

pub fn read_u32(b: &[u8], off: usize) -> (r: u32)
    requires
        off + 4 <= b.len(),
    ensures
        r == u32_at(b@, off as int),
{
    (b[off] as u32) | ((b[off + 1] as u32) << 8u32) | ((b[off + 2] as u32) << 16u32) | ((b[off
        + 3] as u32) << 24u32)
}

pub fn read_u64(b: &[u8], off: usize) -> (r: u64)
    requires
        off + 8 <= b.len(),
    ensures
        r == u64_at(b@, off as int),
{
    let lo = read_u32(b, off);
    let hi = read_u32(b, off + 4);
    (lo as u64) | ((hi as u64) << 32u64)
}

pub fn push_u16(v: &mut Vec<u8>, x: u16)
    ensures
        final(v)@ == old(v)@ + le16(x),
{
    v.push(x as u8);
    v.push((x >> 8u16) as u8);
    assert(v@ =~= old(v)@ + le16(x));
}

pub fn push_u24(v: &mut Vec<u8>, x: u32)
    ensures
        final(v)@ == old(v)@ + le24(x),
{
    v.push(x as u8);
    v.push((x >> 8u32) as u8);
    v.push((x >> 16u32) as u8);
    assert(v@ =~= old(v)@ + le24(x));
}

pub fn push_u32(v: &mut Vec<u8>, x: u32)
    ensures
        final(v)@ == old(v)@ + le32(x),
{
    v.push(x as u8);
    v.push((x >> 8u32) as u8);
    v.push((x >> 16u32) as u8);
    v.push((x >> 24u32) as u8);
    assert(v@ =~= old(v)@ + le32(x));
}

pub fn push_u64(v: &mut Vec<u8>, x: u64)
    ensures
        final(v)@ == old(v)@ + le64(x),
{
    push_u32(v, x as u32);
    push_u32(v, (x >> 32u64) as u32);
    assert(v@ =~= old(v)@ + le64(x));
}

/// Decoding the little-endian bytes of `x` gives `x` back.
pub proof fn lemma_le32_decodes(x: u32)
    ensures
        u32_at(le32(x), 0) == x,
{
    let (b0, b1, b2, b3) = (x as u8, (x >> 8u32) as u8, (x >> 16u32) as u8, (x >> 24u32) as u8);
    assert((b0 as u32) | ((b1 as u32) << 8u32) | ((b2 as u32) << 16u32) | ((b3 as u32) << 24u32)
        == x) by (bit_vector)
        requires
            b0 == x as u8,
            b1 == (x >> 8u32) as u8,
            b2 == (x >> 16u32) as u8,
            b3 == (x >> 24u32) as u8,
    ;
}

/// Decoding the little-endian bytes of `x` gives `x` back.
pub proof fn lemma_le16_decodes(x: u16)
    ensures
        u16_at(le16(x), 0) == x,
{
    let (b0, b1) = (x as u8, (x >> 8u16) as u8);
    assert((b0 as u16) | ((b1 as u16) << 8u16) == x) by (bit_vector)
        requires
            b0 == x as u8,
            b1 == (x >> 8u16) as u8,
    ;
}

/// Re-encoding four decoded bytes gives the same four bytes.
pub proof fn lemma_u32_encodes(s: Seq<u8>, off: int)
    requires
        0 <= off,
        off + 4 <= s.len(),
    ensures
        le32(u32_at(s, off)) == s.subrange(off, off + 4),
{
    let (b0, b1, b2, b3) = (s[off], s[off + 1], s[off + 2], s[off + 3]);
    let x = u32_at(s, off);
    assert(x as u8 == b0 && (x >> 8u32) as u8 == b1 && (x >> 16u32) as u8 == b2 && (x >> 24u32) as u8
        == b3) by (bit_vector)
        requires
            x == (b0 as u32) | ((b1 as u32) << 8u32) | ((b2 as u32) << 16u32) | ((b3 as u32)
                << 24u32),
    ;
    assert(le32(x) =~= s.subrange(off, off + 4));
}

/// Re-encoding three decoded bytes gives the same three bytes.
pub proof fn lemma_u24_encodes(s: Seq<u8>, off: int)
    requires
        0 <= off,
        off + 3 <= s.len(),
    ensures
        le24(u24_at(s, off)) == s.subrange(off, off + 3),
{
    let (b0, b1, b2) = (s[off], s[off + 1], s[off + 2]);
    let x = u24_at(s, off);
    assert(x as u8 == b0 && (x >> 8u32) as u8 == b1 && (x >> 16u32) as u8 == b2) by (bit_vector)
        requires
            x == (b0 as u32) | ((b1 as u32) << 8u32) | ((b2 as u32) << 16u32),
    ;
    assert(le24(x) =~= s.subrange(off, off + 3));
}

/// Re-encoding two decoded bytes gives the same two bytes.
pub proof fn lemma_u16_encodes(s: Seq<u8>, off: int)
    requires
        0 <= off,
        off + 2 <= s.len(),
    ensures
        le16(u16_at(s, off)) == s.subrange(off, off + 2),
{
    let (b0, b1) = (s[off], s[off + 1]);
    let x = u16_at(s, off);
    assert(x as u8 == b0 && (x >> 8u16) as u8 == b1) by (bit_vector)
        requires
            x == (b0 as u16) | ((b1 as u16) << 8u16),
    ;
    assert(le16(x) =~= s.subrange(off, off + 2));
}

/// Re-encoding eight decoded bytes gives the same eight bytes.
pub proof fn lemma_u64_encodes(s: Seq<u8>, off: int)
    requires
        0 <= off,
        off + 8 <= s.len(),
    ensures
        le64(u64_at(s, off)) == s.subrange(off, off + 8),
{
    let lo = u32_at(s, off);
    let hi = u32_at(s, off + 4);
    let x = u64_at(s, off);
    assert(x as u32 == lo && (x >> 32u64) as u32 == hi) by (bit_vector)
        requires
            x == (lo as u64) | ((hi as u64) << 32u64),
    ;
    lemma_u32_encodes(s, off);
    lemma_u32_encodes(s, off + 4);
    assert(le64(x) =~= s.subrange(off, off + 8));
}

/// A `u32` whose little-endian bytes stand at `off` decodes to itself.
pub proof fn lemma_u32_in(s: Seq<u8>, off: int, x: u32)
    requires
        0 <= off,
        off + 4 <= s.len(),
        s.subrange(off, off + 4) == le32(x),
    ensures
        u32_at(s, off) == x,
{
    lemma_le32_decodes(x);
    assert(s[off] == le32(x)[0] && s[off + 1] == le32(x)[1] && s[off + 2] == le32(x)[2] && s[off
        + 3] == le32(x)[3]);
}

/// A `u16` whose little-endian bytes stand at `off` decodes to itself.
pub proof fn lemma_u16_in(s: Seq<u8>, off: int, x: u16)
    requires
        0 <= off,
        off + 2 <= s.len(),
        s.subrange(off, off + 2) == le16(x),
    ensures
        u16_at(s, off) == x,
{
    lemma_le16_decodes(x);
    assert(s[off] == le16(x)[0] && s[off + 1] == le16(x)[1]);
}

/// A `u64` whose little-endian bytes stand at `off` decodes to itself.
pub proof fn lemma_u64_in(s: Seq<u8>, off: int, x: u64)
    requires
        0 <= off,
        off + 8 <= s.len(),
        s.subrange(off, off + 8) == le64(x),
    ensures
        u64_at(s, off) == x,
{
    let (lo, hi) = (x as u32, (x >> 32u64) as u32);
    assert(le32(lo).len() == 4);
    let w = s.subrange(off, off + 8);
    assert(w == le32(lo) + le32(hi));
    assert forall|j: int| 0 <= j < 4 implies s.subrange(off + 4, off + 8)[j] == le32(hi)[j] by {
        assert(s.subrange(off + 4, off + 8)[j] == w[4 + j]);
        assert((le32(lo) + le32(hi))[4 + j] == le32(hi)[j]);
    }
    assert(s.subrange(off, off + 4) =~= le32(lo));
    assert(s.subrange(off + 4, off + 8) =~= le32(hi));
    lemma_u32_in(s, off, lo);
    lemma_u32_in(s, off + 4, hi);
    assert((lo as u64) | ((hi as u64) << 32u64) == x) by (bit_vector)
        requires
            lo == x as u32,
            hi == (x >> 32u64) as u32,
    ;
}

} // verus!
