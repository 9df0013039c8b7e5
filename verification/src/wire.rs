//! Byte-level helpers used by the encoders and decoders: copying slices,
//! appending little-endian integers and reading big-endian fields.
use vstd::prelude::*;
use vstd::bytes::*;
use vstd::slice::slice_subrange;

verus! {

/// `base` with `src` written over it starting at index `at`.
pub open spec fn spliced(base: Seq<u8>, at: int, src: Seq<u8>) -> Seq<u8> {
    base.subrange(0, at) + src + base.subrange(at + src.len(), base.len() as int)
}

/// Big-endian value of two bytes.
pub open spec fn be16(b0: u8, b1: u8) -> int {
    b0 as int * 256 + b1 as int
}

/// Big-endian value of four bytes.
pub open spec fn be32(b0: u8, b1: u8, b2: u8, b3: u8) -> int {
    be16(b0, b1) * 65536 + be16(b2, b3)
}

/// Little-endian bytes of a signed 16-bit value (its two's complement bits).
pub open spec fn spec_i16_to_le_bytes(x: i16) -> Seq<u8> {
    spec_u16_to_le_bytes(x as u16)
}

/// Appends every byte of `src` to `out`.
pub fn extend_bytes(out: &mut Vec<u8>, src: &[u8])
    ensures
        final(out)@ == old(out)@ + src@,
{
    let ghost start = out@;
    let mut i: usize = 0;
    while i < src.len()
        invariant
            i <= src@.len(),
            out@ == start + src@.subrange(0, i as int),
        decreases src@.len() - i,
    {
        out.push(src[i]);
        i = i + 1;
        assert(out@ =~= start + src@.subrange(0, i as int));
    }
    assert(src@.subrange(0, i as int) =~= src@);
}

/// Overwrites `out[at .. at + src.len()]` with `src`.
pub fn copy_into(out: &mut [u8], at: usize, src: &[u8])
    requires
        at + src@.len() <= old(out)@.len(),
    ensures
        final(out)@ == spliced(old(out)@, at as int, src@),
{
    let ghost base = out@;
    let n = out.len();
    let mut i: usize = 0;
    while i < src.len()
        invariant
            n == base.len(),
            at + src@.len() <= base.len(),
            i <= src@.len(),
            out@.len() == base.len(),
            forall|j: int| 0 <= j < at ==> out@[j] == base[j],
            forall|j: int| at <= j < at + i ==> out@[j] == src@[j - at],
            forall|j: int| at + i <= j < base.len() ==> out@[j] == base[j],
        decreases src@.len() - i,
    {
        out[at + i] = src[i];
        i = i + 1;
    }
    assert(out@ =~= spliced(base, at as int, src@));
}

/// Appends the little-endian bytes of `v`.
pub fn push_u16_le(out: &mut Vec<u8>, v: u16)
    ensures
        final(out)@ == old(out)@ + spec_u16_to_le_bytes(v),
{
    let mut b = u16_to_le_bytes(v);
    out.append(&mut b);
}

/// Appends the little-endian bytes of `v`.
pub fn push_u32_le(out: &mut Vec<u8>, v: u32)
    ensures
        final(out)@ == old(out)@ + spec_u32_to_le_bytes(v),
{
    let mut b = u32_to_le_bytes(v);
    out.append(&mut b);
}

/// Appends the little-endian bytes of `v`.
pub fn push_u64_le(out: &mut Vec<u8>, v: u64)
    ensures
        final(out)@ == old(out)@ + spec_u64_to_le_bytes(v),
{
    let mut b = u64_to_le_bytes(v);
    out.append(&mut b);
}

/// Little-endian `u16` stored at `raw[at .. at + 2]`.
pub fn read_u16_le(raw: &[u8], at: usize) -> (v: u16)
    requires
        at + 2 <= raw@.len(),
    ensures
        v == spec_u16_from_le_bytes(raw@.subrange(at as int, at + 2)),
{
    let _n = raw.len();
    u16_from_le_bytes(slice_subrange(raw, at, at + 2))
}

/// Little-endian `u32` stored at `raw[at .. at + 4]`.
pub fn read_u32_le(raw: &[u8], at: usize) -> (v: u32)
    requires
        at + 4 <= raw@.len(),
    ensures
        v == spec_u32_from_le_bytes(raw@.subrange(at as int, at + 4)),
{
    let _n = raw.len();
    u32_from_le_bytes(slice_subrange(raw, at, at + 4))
}

/// Little-endian `u64` stored at `raw[at .. at + 8]`.
pub fn read_u64_le(raw: &[u8], at: usize) -> (v: u64)
    requires
        at + 8 <= raw@.len(),
    ensures
        v == spec_u64_from_le_bytes(raw@.subrange(at as int, at + 8)),
{
    let _n = raw.len();
    u64_from_le_bytes(slice_subrange(raw, at, at + 8))
}

/// Big-endian `u16` built from two bytes.
pub fn be16_of(b0: u8, b1: u8) -> (v: u16)
    ensures
        v == be16(b0, b1),
{
    (b0 as u16) * 256 + (b1 as u16)
}

/// Big-endian `u32` built from four bytes.
pub fn be32_of(b0: u8, b1: u8, b2: u8, b3: u8) -> (v: u32)
    ensures
        v == be32(b0, b1, b2, b3),
{
    (be16_of(b0, b1) as u32) * 65536 + (be16_of(b2, b3) as u32)
}

/// The two's complement reinterpretation is undone by the reverse cast.
pub proof fn lemma_i16_u16_roundtrip(x: i16)
    ensures
        ((x as u16) as i16) == x,
{
    assert(((x as u16) as i16) == x) by (bit_vector);
}

} // verus!
