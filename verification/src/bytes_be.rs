//! Big-endian integer encodings used throughout the wire format, together
//! with the byte-vector helpers the codecs are built on.

use vstd::prelude::*;

verus! {

/// Big-endian bytes of a `u16`.
pub open spec fn u16_be(x: u16) -> Seq<u8> {
    seq![(x / 0x100) as u8, (x % 0x100) as u8]
}

/// Big-endian bytes of a `u32`.
pub open spec fn u32_be(x: u32) -> Seq<u8> {
    seq![
        (x / 0x1000000) as u8,
        ((x / 0x10000) % 0x100) as u8,
        ((x / 0x100) % 0x100) as u8,
        (x % 0x100) as u8,
    ]
}

/// The low three big-endian bytes of a `u32` (the 24-bit length form).
pub open spec fn u24_be(x: u32) -> Seq<u8> {
    seq![((x / 0x10000) % 0x100) as u8, ((x / 0x100) % 0x100) as u8, (x % 0x100) as u8]
}

/// Big-endian bytes of a `u64`.
pub open spec fn u64_be(x: u64) -> Seq<u8> {
    seq![
        (x / 0x100000000000000) as u8,
        ((x / 0x1000000000000) % 0x100) as u8,
        ((x / 0x10000000000) % 0x100) as u8,
        ((x / 0x100000000) % 0x100) as u8,
        ((x / 0x1000000) % 0x100) as u8,
        ((x / 0x10000) % 0x100) as u8,
        ((x / 0x100) % 0x100) as u8,
        (x % 0x100) as u8,
    ]
}

/// The `u16` read from two big-endian bytes.
pub open spec fn u16_from_be(b0: u8, b1: u8) -> u16 {
    (b0 * 0x100 + b1) as u16
}

/// The `u32` read from four big-endian bytes.
pub open spec fn u32_from_be(b0: u8, b1: u8, b2: u8, b3: u8) -> u32 {
    (b0 * 0x1000000 + b1 * 0x10000 + b2 * 0x100 + b3) as u32
}

/// The `u32` read from three big-endian bytes (24-bit length form).
pub open spec fn u24_from_be(b0: u8, b1: u8, b2: u8) -> u32 {
    (b0 * 0x10000 + b1 * 0x100 + b2) as u32
}

/// The `u64` read from eight big-endian bytes.
pub open spec fn u64_from_be(s: Seq<u8>) -> u64
    recommends
        s.len() == 8,
{
    (s[0] * 0x100000000000000 + s[1] * 0x1000000000000 + s[2] * 0x10000000000 + s[3] * 0x100000000
        + s[4] * 0x1000000 + s[5] * 0x10000 + s[6] * 0x100 + s[7]) as u64
}

/// Append the big-endian bytes of a `u16`.
pub fn push_u16_be(out: &mut Vec<u8>, x: u16)
    ensures
        final(out)@ == old(out)@ + u16_be(x),
{
    out.push((x / 0x100) as u8);
    out.push((x % 0x100) as u8);
    assert(final(out)@ =~= old(out)@ + u16_be(x));
}

/// Append the big-endian bytes of a `u32`.
pub fn push_u32_be(out: &mut Vec<u8>, x: u32)
    ensures
        final(out)@ == old(out)@ + u32_be(x),
{
    out.push((x / 0x1000000) as u8);
    out.push(((x / 0x10000) % 0x100) as u8);
    out.push(((x / 0x100) % 0x100) as u8);
    out.push((x % 0x100) as u8);
    assert(final(out)@ =~= old(out)@ + u32_be(x));
}

/// Append the low three big-endian bytes of a `u32`.
pub fn push_u24_be(out: &mut Vec<u8>, x: u32)
    ensures
        final(out)@ == old(out)@ + u24_be(x),
{
    out.push(((x / 0x10000) % 0x100) as u8);
    out.push(((x / 0x100) % 0x100) as u8);
    out.push((x % 0x100) as u8);
    assert(final(out)@ =~= old(out)@ + u24_be(x));
}

/// Append the big-endian bytes of a `u64`.
pub fn push_u64_be(out: &mut Vec<u8>, x: u64)
    ensures
        final(out)@ == old(out)@ + u64_be(x),
{
    out.push((x / 0x100000000000000) as u8);
    out.push(((x / 0x1000000000000) % 0x100) as u8);
    out.push(((x / 0x10000000000) % 0x100) as u8);
    out.push(((x / 0x100000000) % 0x100) as u8);
    out.push(((x / 0x1000000) % 0x100) as u8);
    out.push(((x / 0x10000) % 0x100) as u8);
    out.push(((x / 0x100) % 0x100) as u8);
    out.push((x % 0x100) as u8);
    assert(final(out)@ =~= old(out)@ + u64_be(x));
}

/// Append a byte slice.
pub fn push_bytes(out: &mut Vec<u8>, src: &[u8])
    ensures
        final(out)@ == old(out)@ + src@,
{
    let mut i: usize = 0;
    while i < src.len()
        invariant
            i <= src@.len(),
            out@ == old(out)@ + src@.take(i as int),
        decreases src@.len() - i,
    {
        out.push(src[i]);
        i = i + 1;
        assert(out@ =~= old(out)@ + src@.take(i as int));
    }
    assert(final(out)@ =~= old(out)@ + src@);
}

/// Read a `u16` from two big-endian bytes of a slice.
pub fn read_u16_be(s: &[u8], off: usize) -> (r: u16)
    requires
        off + 2 <= s@.len(),
    ensures
        r == u16_from_be(s@[off as int], s@[off + 1]),
{
    (s[off] as u16) * 0x100 + (s[off + 1] as u16)
}

/// Read a `u32` from four big-endian bytes of a slice.
pub fn read_u32_be(s: &[u8], off: usize) -> (r: u32)
    requires
        off + 4 <= s@.len(),
    ensures
        r == u32_from_be(s@[off as int], s@[off + 1], s@[off + 2], s@[off + 3]),
{
    (s[off] as u32) * 0x1000000 + (s[off + 1] as u32) * 0x10000 + (s[off + 2] as u32) * 0x100
        + (s[off + 3] as u32)
}

/// Read a `u32` from three big-endian bytes of a slice (24-bit length form).
pub fn read_u24_be(s: &[u8], off: usize) -> (r: u32)
    requires
        off + 3 <= s@.len(),
    ensures
        r == u24_from_be(s@[off as int], s@[off + 1], s@[off + 2]),
{
    (s[off] as u32) * 0x10000 + (s[off + 1] as u32) * 0x100 + (s[off + 2] as u32)
}

/// Read a `u64` from eight big-endian bytes of a slice.
pub fn read_u64_be(s: &[u8], off: usize) -> (r: u64)
    requires
        off + 8 <= s@.len(),
    ensures
        r == u64_from_be(s@.subrange(off as int, off + 8)),
{
    let r = (s[off] as u64) * 0x100000000000000 + (s[off + 1] as u64) * 0x1000000000000 + (s[off
        + 2] as u64) * 0x10000000000 + (s[off + 3] as u64) * 0x100000000 + (s[off + 4] as u64)
        * 0x1000000 + (s[off + 5] as u64) * 0x10000 + (s[off + 6] as u64) * 0x100 + (s[off
        + 7] as u64);
    proof {
        let sub = s@.subrange(off as int, off + 8);
        assert(sub[0] == s@[off as int]);
        assert(sub[1] == s@[off + 1]);
        assert(sub[2] == s@[off + 2]);
        assert(sub[3] == s@[off + 3]);
        assert(sub[4] == s@[off + 4]);
        assert(sub[5] == s@[off + 5]);
        assert(sub[6] == s@[off + 6]);
        assert(sub[7] == s@[off + 7]);
    }
    r
}

/// Round trip: reading back the big-endian bytes of a `u16` gives the value.
pub proof fn lemma_u16_be_round_trip(x: u16)
    ensures
        u16_from_be(u16_be(x)[0], u16_be(x)[1]) == x,
{
}

/// Round trip: reading back the big-endian bytes of a `u32` gives the value.
pub proof fn lemma_u32_be_round_trip(x: u32)
    ensures
        u32_from_be(u32_be(x)[0], u32_be(x)[1], u32_be(x)[2], u32_be(x)[3]) == x,
{
}

/// Round trip: the low 24 bits survive the three-byte form.
pub proof fn lemma_u24_be_round_trip(x: u32)
    ensures
        u24_from_be(u24_be(x)[0], u24_be(x)[1], u24_be(x)[2]) == x % 0x1000000,
{
}

/// Round trip: reading back the big-endian bytes of a `u64` gives the value.
pub proof fn lemma_u64_be_round_trip(x: u64)
    ensures
        u64_from_be(u64_be(x)) == x,
{
    assert((x / 0x100000000000000) * 0x100000000000000 + ((x / 0x1000000000000) % 0x100)
        * 0x1000000000000 + ((x / 0x10000000000) % 0x100) * 0x10000000000 + ((x / 0x100000000)
        % 0x100) * 0x100000000 + ((x / 0x1000000) % 0x100) * 0x1000000 + ((x / 0x10000) % 0x100)
        * 0x10000 + ((x / 0x100) % 0x100) * 0x100 + x % 0x100 == x) by (bit_vector);
}

} // verus!
