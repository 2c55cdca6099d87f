//! Little-endian integer encodings used on the wire.
use vstd::prelude::*;

verus! {

/// The little-endian u16 stored at `s[i]`, `s[i + 1]`.
pub open spec fn le_u16_at(s: Seq<u8>, i: int) -> u16 {
    (s[i] as u16) | ((s[i + 1] as u16) << 8u16)
}

/// The little-endian u32 stored at `s[i]` .. `s[i + 3]`.
pub open spec fn le_u32_at(s: Seq<u8>, i: int) -> u32 {
    (s[i] as u32) | ((s[i + 1] as u32) << 8u32) | ((s[i + 2] as u32) << 16u32) | ((s[i + 3] as u32) << 24u32)
}

/// The little-endian encoding of a u16.
pub open spec fn u16_le_bytes(v: u16) -> Seq<u8> {
    seq![(v & 0xff) as u8, (v >> 8u16) as u8]
}

/// The little-endian encoding of a u32.
pub open spec fn u32_le_bytes(v: u32) -> Seq<u8> {
    seq![
        (v & 0xff) as u8,
        ((v >> 8u32) & 0xff) as u8,
        ((v >> 16u32) & 0xff) as u8,
        ((v >> 24u32) & 0xff) as u8,
    ]
}

/// Decoding the encoding of a u16 gives it back.
pub proof fn lemma_u16_roundtrip(v: u16, s: Seq<u8>, i: int)
    requires
        0 <= i,
        i + 2 <= s.len(),
        s.subrange(i, i + 2) == u16_le_bytes(v),
    ensures
        le_u16_at(s, i) == v,
{
    assert(s[i] == s.subrange(i, i + 2)[0]);
    assert(s[i + 1] == s.subrange(i, i + 2)[1]);
    let a = (v & 0xff) as u8;
    let b = (v >> 8u16) as u8;
    assert(((a as u16) | ((b as u16) << 8u16)) == v) by (bit_vector)
        requires
            a == (v & 0xff) as u8,
            b == (v >> 8u16) as u8,
    ;
}

/// Decoding the encoding of a u32 gives it back.
pub proof fn lemma_u32_roundtrip(v: u32, s: Seq<u8>, i: int)
    requires
        0 <= i,
        i + 4 <= s.len(),
        s.subrange(i, i + 4) == u32_le_bytes(v),
    ensures
        le_u32_at(s, i) == v,
{
    assert(s[i] == s.subrange(i, i + 4)[0]);
    assert(s[i + 1] == s.subrange(i, i + 4)[1]);
    assert(s[i + 2] == s.subrange(i, i + 4)[2]);
    assert(s[i + 3] == s.subrange(i, i + 4)[3]);
    let a = (v & 0xff) as u8;
    let b = ((v >> 8u32) & 0xff) as u8;
    let c = ((v >> 16u32) & 0xff) as u8;
    let d = ((v >> 24u32) & 0xff) as u8;
    assert(((a as u32) | ((b as u32) << 8u32) | ((c as u32) << 16u32) | ((d as u32) << 24u32))
        == v) by (bit_vector)
        requires
            a == (v & 0xff) as u8,
            b == ((v >> 8u32) & 0xff) as u8,
            c == ((v >> 16u32) & 0xff) as u8,
            d == ((v >> 24u32) & 0xff) as u8,
    ;
}

/// Read the little-endian u16 at `pos`.
pub fn get_le_u16(s: &[u8], pos: usize) -> (r: u16)
    requires
        pos + 2 <= s@.len(),
    ensures
        r == le_u16_at(s@, pos as int),
{
    (s[pos] as u16) | ((s[pos + 1] as u16) << 8u16)
}

/// Read the little-endian u32 at `pos`.
pub fn get_le_u32(s: &[u8], pos: usize) -> (r: u32)
    requires
        pos + 4 <= s@.len(),
    ensures
        r == le_u32_at(s@, pos as int),
{
    (s[pos] as u32) | ((s[pos + 1] as u32) << 8u32) | ((s[pos + 2] as u32) << 16u32) | ((
    s[pos + 3] as u32) << 24u32)
}

} // verus!
