//! Little-endian integers in byte sequences, as on-disk formats and the VFS
//! protocol store them.
use vstd::prelude::*;

verus! {

/// The 16-bit value of bytes `at`, `at + 1`, least significant first.
pub open spec fn le16_at(b: Seq<u8>, at: int) -> u16 {
    (b[at] as u16) | ((b[at + 1] as u16) << 8u16)
}

/// The 32-bit value of bytes `at .. at + 4`, least significant first.
pub open spec fn le32_at(b: Seq<u8>, at: int) -> u32 {
    (b[at] as u32) | ((b[at + 1] as u32) << 8u32) | ((b[at + 2] as u32) << 16u32) | ((b[at + 3] as u32) << 24u32)
}

/// The 64-bit value of bytes `at .. at + 8`, least significant first.
pub open spec fn le64_at(b: Seq<u8>, at: int) -> u64 {
    (le32_at(b, at) as u64) | ((le32_at(b, at + 4) as u64) << 32u64)
}

/// The two bytes of `x`, least significant first.
pub open spec fn le16_bytes(x: u16) -> Seq<u8> {
    seq![(x & 0xff) as u8, (x >> 8u16) as u8]
}

/// The four bytes of `x`, least significant first.
pub open spec fn le32_bytes(x: u32) -> Seq<u8> {
    seq![(x & 0xff) as u8, ((x >> 8u32) & 0xff) as u8, ((x >> 16u32) & 0xff) as u8, (x >> 24u32) as u8]
}

/// The eight bytes of `x`, least significant first.
pub open spec fn le64_bytes(x: u64) -> Seq<u8> {
    le32_bytes((x & 0xffff_ffff) as u32) + le32_bytes((x >> 32u64) as u32)
}

/// Reading back what was written gives the value again.
pub proof fn lemma_le16_roundtrip(x: u16, s: Seq<u8>, at: int)
    requires
        0 <= at,
        at + 2 <= s.len(),
        s.subrange(at, at + 2) == le16_bytes(x),
    ensures
        le16_at(s, at) == x,
{
    assert(s[at] == le16_bytes(x)[0]);
    assert(s[at + 1] == le16_bytes(x)[1]);
    let b0 = s[at];
    let b1 = s[at + 1];
    assert((b0 as u16) | ((b1 as u16) << 8u16) == x) by (bit_vector)
        requires
            b0 == (x & 0xff) as u8,
            b1 == (x >> 8u16) as u8,
    ;
}

/// Reading back what was written gives the value again.
pub proof fn lemma_le32_roundtrip(x: u32, s: Seq<u8>, at: int)
    requires
        0 <= at,
        at + 4 <= s.len(),
        s.subrange(at, at + 4) == le32_bytes(x),
    ensures
        le32_at(s, at) == x,
{
    assert(s[at] == le32_bytes(x)[0]);
    assert(s[at + 1] == le32_bytes(x)[1]);
    assert(s[at + 2] == le32_bytes(x)[2]);
    assert(s[at + 3] == le32_bytes(x)[3]);
    let b0 = s[at];
    let b1 = s[at + 1];
    let b2 = s[at + 2];
    let b3 = s[at + 3];
    assert((b0 as u32) | ((b1 as u32) << 8u32) | ((b2 as u32) << 16u32) | ((b3 as u32) << 24u32) == x) by (bit_vector)
        requires
            b0 == (x & 0xff) as u8,
            b1 == ((x >> 8u32) & 0xff) as u8,
            b2 == ((x >> 16u32) & 0xff) as u8,
            b3 == (x >> 24u32) as u8,
    ;
}

/// Reading back what was written gives the value again.
pub proof fn lemma_le64_roundtrip(x: u64, s: Seq<u8>, at: int)
    requires
        0 <= at,
        at + 8 <= s.len(),
        s.subrange(at, at + 8) == le64_bytes(x),
    ensures
        le64_at(s, at) == x,
{
    let lo = (x & 0xffff_ffff) as u32;
    let hi = (x >> 32u64) as u32;
    assert(s.subrange(at, at + 4) =~= le64_bytes(x).subrange(0, 4));
    assert(s.subrange(at + 4, at + 8) =~= le64_bytes(x).subrange(4, 8));
    assert(le64_bytes(x).subrange(0, 4) =~= le32_bytes(lo));
    assert(le64_bytes(x).subrange(4, 8) =~= le32_bytes(hi));
    lemma_le32_roundtrip(lo, s, at);
    lemma_le32_roundtrip(hi, s, at + 4);
    assert((lo as u64) | ((hi as u64) << 32u64) == x) by (bit_vector)
        requires
            lo == (x & 0xffff_ffff) as u32,
            hi == (x >> 32u64) as u32,
    ;
}

/// Reads a 16-bit little-endian value.
pub fn read_le16(b: &[u8], at: usize) -> (x: u16)
    requires
        at + 2 <= b@.len(),
    ensures
        x == le16_at(b@, at as int),
{
    (b[at] as u16) | ((b[at + 1] as u16) << 8)
}

/// Reads a 32-bit little-endian value.
pub fn read_le32(b: &[u8], at: usize) -> (x: u32)
    requires
        at + 4 <= b@.len(),
    ensures
        x == le32_at(b@, at as int),
{
    (b[at] as u32) | ((b[at + 1] as u32) << 8) | ((b[at + 2] as u32) << 16) | ((b[at + 3] as u32) << 24)
}

/// Reads a 64-bit little-endian value.
pub fn read_le64(b: &[u8], at: usize) -> (x: u64)
    requires
        at + 8 <= b@.len(),
    ensures
        x == le64_at(b@, at as int),
{
    let _n = b.len();
    let lo = read_le32(b, at);
    let hi = read_le32(b, at + 4);
    (lo as u64) | ((hi as u64) << 32)
}

/// Appends a 16-bit value, least significant byte first.
pub fn push_le16(v: &mut Vec<u8>, x: u16)
    ensures
        final(v)@ == old(v)@ + le16_bytes(x),
{
    v.push((x & 0xff) as u8);
    v.push((x >> 8) as u8);
    assert(v@ =~= old(v)@ + le16_bytes(x));
}

/// Appends a 32-bit value, least significant byte first.
pub fn push_le32(v: &mut Vec<u8>, x: u32)
    ensures
        final(v)@ == old(v)@ + le32_bytes(x),
{
    v.push((x & 0xff) as u8);
    v.push(((x >> 8) & 0xff) as u8);
    v.push(((x >> 16) & 0xff) as u8);
    v.push((x >> 24) as u8);
    assert(v@ =~= old(v)@ + le32_bytes(x));
}

/// Appends a 64-bit value, least significant byte first.
pub fn push_le64(v: &mut Vec<u8>, x: u64)
    ensures
        final(v)@ == old(v)@ + le64_bytes(x),
{
    let ghost v0 = v@;
    push_le32(v, (x & 0xffff_ffff) as u32);
    push_le32(v, (x >> 32) as u32);
    assert(v@ =~= v0 + le64_bytes(x));
}

} // verus!
