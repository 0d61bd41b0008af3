//! Little-endian integer fields inside byte buffers.

use vstd::prelude::*;

verus! {

/// The little-endian `u16` stored at `d[o..o + 2]`.
pub open spec fn spec_u16(d: Seq<u8>, o: int) -> int {
    d[o] + d[o + 1] * 256
}

/// The little-endian `u32` stored at `d[o..o + 4]`.
pub open spec fn spec_u32(d: Seq<u8>, o: int) -> int {
    d[o] + d[o + 1] * 256 + d[o + 2] * 65536 + d[o + 3] * 16777216
}

/// The little-endian bytes of a `u16`.
pub open spec fn le16(v: int) -> Seq<u8> {
    seq![(v % 256) as u8, ((v / 256) % 256) as u8]
}

/// The little-endian bytes of a `u32`.
pub open spec fn le32(v: int) -> Seq<u8> {
    seq![
        (v % 256) as u8,
        ((v / 256) % 256) as u8,
        ((v / 65536) % 256) as u8,
        ((v / 16777216) % 256) as u8,
    ]
}

/// `d` with `bytes` written over it from index `o`.
pub open spec fn splice(d: Seq<u8>, o: int, bytes: Seq<u8>) -> Seq<u8> {
    d.subrange(0, o) + bytes + d.subrange(o + bytes.len(), d.len() as int)
}

/// Writing inside the buffer keeps its length, and the written bytes read back.
pub proof fn lemma_splice(d: Seq<u8>, o: int, bytes: Seq<u8>)
    requires
        0 <= o,
        o + bytes.len() <= d.len(),
    ensures
        splice(d, o, bytes).len() == d.len(),
        splice(d, o, bytes).subrange(o, o + bytes.len()) == bytes,
        forall|k: int| 0 <= k < o ==> #[trigger] splice(d, o, bytes)[k] == d[k],
        forall|k: int| o + bytes.len() <= k < d.len() ==> #[trigger] splice(d, o, bytes)[k] == d[k],
{
    assert(splice(d, o, bytes).subrange(o, o + bytes.len()) =~= bytes);
}

/// Reads the little-endian `u16` at `d[o..o + 2]`.
pub fn rd_u16(d: &[u8], o: usize) -> (r: u16)
    requires
        o + 2 <= d@.len(),
    ensures
        r == spec_u16(d@, o as int),
{
    d[o] as u16 + (d[o + 1] as u16) * 256
}

/// Reads the little-endian `u32` at `d[o..o + 4]`.
pub fn rd_u32(d: &[u8], o: usize) -> (r: u32)
    requires
        o + 4 <= d@.len(),
    ensures
        r == spec_u32(d@, o as int),
{
    d[o] as u32 + (d[o + 1] as u32) * 256 + (d[o + 2] as u32) * 65536 + (d[o + 3] as u32) * 16777216
}

/// The little-endian bytes of `v`.
pub fn u16_le_bytes(v: u16) -> (r: Vec<u8>)
    ensures
        r@ == le16(v as int),
{
    let mut r: Vec<u8> = Vec::new();
    r.push((v % 256) as u8);
    r.push(((v / 256) % 256) as u8);
    r
}

/// The little-endian bytes of `v`.
pub fn u32_le_bytes(v: u32) -> (r: Vec<u8>)
    ensures
        r@ == le32(v as int),
{
    let mut r: Vec<u8> = Vec::new();
    r.push((v % 256) as u8);
    r.push(((v / 256) % 256) as u8);
    r.push(((v / 65536) % 256) as u8);
    r.push(((v / 16777216) % 256) as u8);
    r
}

/// Writing a value and reading it back gives the value.
pub proof fn lemma_le32_roundtrip(v: int)
    requires
        0 <= v <= u32::MAX,
    ensures
        spec_u32(le32(v), 0) == v,
{
    let b0 = v % 256;
    let b1 = (v / 256) % 256;
    let b2 = (v / 65536) % 256;
    let b3 = (v / 16777216) % 256;
    assert(v == b0 + b1 * 256 + b2 * 65536 + b3 * 16777216) by (nonlinear_arith)
        requires
            0 <= v <= u32::MAX,
            b0 == v % 256,
            b1 == (v / 256) % 256,
            b2 == (v / 65536) % 256,
            b3 == (v / 16777216) % 256,
    ;
}

/// Writing a value and reading it back gives the value.
pub proof fn lemma_le16_roundtrip(v: int)
    requires
        0 <= v <= u16::MAX,
    ensures
        spec_u16(le16(v), 0) == v,
{
}

/// Copies `bytes` over `d` from index `o`.
pub fn write_bytes_at(d: &mut Vec<u8>, o: usize, bytes: &[u8])
    requires
        o + bytes@.len() <= old(d)@.len(),
    ensures
        final(d)@ == splice(old(d)@, o as int, bytes@),
        final(d)@.len() == old(d)@.len(),
{
    let ghost d0 = d@;
    assert(d0.len() == d.len());
    let mut k: usize = 0;
    while k < bytes.len()
        invariant
            o + bytes@.len() <= d0.len(),
            d@.len() == d0.len(),
            d0.len() <= usize::MAX,
            k <= bytes@.len(),
            forall|j: int| 0 <= j < o ==> d@[j] == d0[j],
            forall|j: int| o <= j < o + k ==> d@[j] == bytes@[j - o],
            forall|j: int| o + k <= j < d0.len() ==> d@[j] == d0[j],
        decreases bytes.len() - k,
    {
        d.set(o + k, bytes[k]);
        k = k + 1;
    }
    assert(d@ =~= splice(d0, o as int, bytes@));
}

/// Writes the little-endian `u32` `v` at `d[o..o + 4]`.
pub fn write_u32_le(d: &mut Vec<u8>, o: usize, v: u32)
    requires
        o + 4 <= old(d)@.len(),
    ensures
        final(d)@ == splice(old(d)@, o as int, le32(v as int)),
        final(d)@.len() == old(d)@.len(),
{
    let b = u32_le_bytes(v);
    write_bytes_at(d, o, b.as_slice());
}

/// Writes the little-endian `u16` `v` at `d[o..o + 2]`.
pub fn write_u16_le(d: &mut Vec<u8>, o: usize, v: u16)
    requires
        o + 2 <= old(d)@.len(),
    ensures
        final(d)@ == splice(old(d)@, o as int, le16(v as int)),
        final(d)@.len() == old(d)@.len(),
{
    let b = u16_le_bytes(v);
    write_bytes_at(d, o, b.as_slice());
}

/// A `u32` written at `o` reads back there.
pub proof fn lemma_u32_at(s: Seq<u8>, o: int, v: int)
    requires
        0 <= v <= u32::MAX,
        0 <= o,
        o + 4 <= s.len(),
        s.subrange(o, o + 4) == le32(v),
    ensures
        spec_u32(s, o) == v,
{
    lemma_le32_roundtrip(v);
    let w = le32(v);
    assert(s[o] == w[0] && s[o + 1] == w[1] && s[o + 2] == w[2] && s[o + 3] == w[3]) by {
        assert(s.subrange(o, o + 4)[0] == s[o]);
        assert(s.subrange(o, o + 4)[1] == s[o + 1]);
        assert(s.subrange(o, o + 4)[2] == s[o + 2]);
        assert(s.subrange(o, o + 4)[3] == s[o + 3]);
    }
}

/// A `u16` written at `o` reads back there.
pub proof fn lemma_u16_at(s: Seq<u8>, o: int, v: int)
    requires
        0 <= v <= u16::MAX,
        0 <= o,
        o + 2 <= s.len(),
        s.subrange(o, o + 2) == le16(v),
    ensures
        spec_u16(s, o) == v,
{
    lemma_le16_roundtrip(v);
    let w = le16(v);
    assert(s[o] == w[0] && s[o + 1] == w[1]) by {
        assert(s.subrange(o, o + 2)[0] == s[o]);
        assert(s.subrange(o, o + 2)[1] == s[o + 1]);
    }
}

} // verus!
