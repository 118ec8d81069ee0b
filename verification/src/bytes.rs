//! Little-endian integer encoding, stated over byte sequences.

use vstd::prelude::*;

verus! {

/// The unsigned value of the 2 bytes at `p`, least significant first.
pub open spec fn le16(s: Seq<u8>, p: int) -> int {
    s[p] + s[p + 1] * 0x100
}

/// The unsigned value of the 4 bytes at `p`, least significant first.
pub open spec fn le32(s: Seq<u8>, p: int) -> int {
    s[p] + s[p + 1] * 0x100 + s[p + 2] * 0x10000 + s[p + 3] * 0x1000000
}

/// The unsigned value of the 8 bytes at `p`, least significant first.
pub open spec fn le64(s: Seq<u8>, p: int) -> int {
    le32(s, p) + le32(s, p + 4) * 0x1_0000_0000
}

pub open spec fn spec_u16_at(s: Seq<u8>, p: int) -> u16 {
    le16(s, p) as u16
}

pub open spec fn spec_u32_at(s: Seq<u8>, p: int) -> u32 {
    le32(s, p) as u32
}

pub open spec fn spec_u64_at(s: Seq<u8>, p: int) -> u64 {
    le64(s, p) as u64
}

pub open spec fn spec_i16_at(s: Seq<u8>, p: int) -> i16 {
    spec_u16_at(s, p) as i16
}

pub open spec fn spec_i32_at(s: Seq<u8>, p: int) -> i32 {
    spec_u32_at(s, p) as i32
}

pub open spec fn spec_i64_at(s: Seq<u8>, p: int) -> i64 {
    spec_u64_at(s, p) as i64
}

/// The 2 bytes of `v`, least significant first.
pub open spec fn u16_le_bytes(v: u16) -> Seq<u8> {
    seq![(v & 0xff) as u8, ((v >> 8u16) & 0xff) as u8]
}

/// The 4 bytes of `v`, least significant first.
pub open spec fn u32_le_bytes(v: u32) -> Seq<u8> {
    seq![
        (v & 0xff) as u8,
        ((v >> 8u32) & 0xff) as u8,
        ((v >> 16u32) & 0xff) as u8,
        ((v >> 24u32) & 0xff) as u8,
    ]
}

/// The 8 bytes of `v`, least significant first.
pub open spec fn u64_le_bytes(v: u64) -> Seq<u8> {
    u32_le_bytes((v & 0xffff_ffff) as u32) + u32_le_bytes((v >> 32u64) as u32)
}

pub proof fn lemma_u16_bytes(v: u16)
    ensures
        le16(u16_le_bytes(v), 0) == v,
{
    let b0 = (v & 0xff) as u8;
    let b1 = ((v >> 8u16) & 0xff) as u8;
    assert(b0 + b1 * 0x100 == v) by (bit_vector)
        requires
            b0 == (v & 0xff) as u8,
            b1 == ((v >> 8u16) & 0xff) as u8,
    ;
}

pub proof fn lemma_u32_bytes(v: u32)
    ensures
        le32(u32_le_bytes(v), 0) == v,
{
    let b0 = (v & 0xff) as u8;
    let b1 = ((v >> 8u32) & 0xff) as u8;
    let b2 = ((v >> 16u32) & 0xff) as u8;
    let b3 = ((v >> 24u32) & 0xff) as u8;
    assert(b0 + b1 * 0x100 + b2 * 0x10000 + b3 * 0x1000000 == v) by (bit_vector)
        requires
            b0 == (v & 0xff) as u8,
            b1 == ((v >> 8u32) & 0xff) as u8,
            b2 == ((v >> 16u32) & 0xff) as u8,
            b3 == ((v >> 24u32) & 0xff) as u8,
    ;
}

pub proof fn lemma_u64_bytes(v: u64)
    ensures
        le64(u64_le_bytes(v), 0) == v,
{
    let lo = (v & 0xffff_ffff) as u32;
    let hi = (v >> 32u64) as u32;
    lemma_u32_bytes(lo);
    lemma_u32_bytes(hi);
    let s = u64_le_bytes(v);
    assert(s.subrange(0, 4) =~= u32_le_bytes(lo));
    assert(s.subrange(4, 8) =~= u32_le_bytes(hi));
    assert(le32(s, 0) == le32(u32_le_bytes(lo), 0));
    assert(le32(s, 4) == le32(u32_le_bytes(hi), 0));
    assert(lo + hi * 0x1_0000_0000 == v) by (bit_vector)
        requires
            lo == (v & 0xffff_ffff) as u32,
            hi == (v >> 32u64) as u32,
    ;
}

/// A value written at the end of a byte sequence is read back from the same position,
/// whatever follows it.
pub proof fn lemma_u32_read_back(prefix: Seq<u8>, v: u32, suffix: Seq<u8>)
    ensures
        spec_u32_at(prefix + u32_le_bytes(v) + suffix, prefix.len() as int) == v,
{
    let s = prefix + u32_le_bytes(v) + suffix;
    let p = prefix.len() as int;
    lemma_u32_bytes(v);
    assert(s[p] == u32_le_bytes(v)[0]);
    assert(s[p + 1] == u32_le_bytes(v)[1]);
    assert(s[p + 2] == u32_le_bytes(v)[2]);
    assert(s[p + 3] == u32_le_bytes(v)[3]);
}

pub proof fn lemma_u16_read_back(prefix: Seq<u8>, v: u16, suffix: Seq<u8>)
    ensures
        spec_u16_at(prefix + u16_le_bytes(v) + suffix, prefix.len() as int) == v,
{
    let s = prefix + u16_le_bytes(v) + suffix;
    let p = prefix.len() as int;
    lemma_u16_bytes(v);
    assert(s[p] == u16_le_bytes(v)[0]);
    assert(s[p + 1] == u16_le_bytes(v)[1]);
}

pub proof fn lemma_u64_read_back(prefix: Seq<u8>, v: u64, suffix: Seq<u8>)
    ensures
        spec_u64_at(prefix + u64_le_bytes(v) + suffix, prefix.len() as int) == v,
{
    let s = prefix + u64_le_bytes(v) + suffix;
    let p = prefix.len() as int;
    let b = u64_le_bytes(v);
    lemma_u64_bytes(v);
    assert forall|i: int| 0 <= i < 8 implies s[p + i] == b[i] by {}
    assert(le32(s, p) == le32(b, 0));
    assert(le32(s, p + 4) == le32(b, 4));
}

/// Decodes 2 bytes at `i`, least significant first.
pub fn u16_from_le(s: &[u8], i: usize) -> (v: u16)
    requires
        i + 2 <= s@.len(),
    ensures
        v == le16(s@, i as int),
{
    let b0 = s[i];
    let b1 = s[i + 1];
    let v = (b0 as u16) | ((b1 as u16) << 8u16);
    assert(v == b0 + b1 * 0x100) by (bit_vector)
        requires
            v == (b0 as u16) | ((b1 as u16) << 8u16),
    ;
    v
}

/// Decodes 4 bytes at `i`, least significant first.
pub fn u32_from_le(s: &[u8], i: usize) -> (v: u32)
    requires
        i + 4 <= s@.len(),
    ensures
        v == le32(s@, i as int),
{
    let b0 = s[i];
    let b1 = s[i + 1];
    let b2 = s[i + 2];
    let b3 = s[i + 3];
    let v = (b0 as u32) | ((b1 as u32) << 8u32) | ((b2 as u32) << 16u32) | ((b3 as u32) << 24u32);
    assert(v == b0 + b1 * 0x100 + b2 * 0x10000 + b3 * 0x1000000) by (bit_vector)
        requires
            v == (b0 as u32) | ((b1 as u32) << 8u32) | ((b2 as u32) << 16u32) | ((b3 as u32)
                << 24u32),
    ;
    v
}

/// Decodes 8 bytes at `i`, least significant first.
pub fn u64_from_le(s: &[u8], i: usize) -> (v: u64)
    requires
        i + 8 <= s@.len(),
    ensures
        v == le64(s@, i as int),
{
    let n = s.len();
    assert(i + 4 <= n);
    let lo = u32_from_le(s, i);
    let hi = u32_from_le(s, i + 4);
    let v = (lo as u64) | ((hi as u64) << 32u64);
    assert(v == lo + hi * 0x1_0000_0000) by (bit_vector)
        requires
            v == (lo as u64) | ((hi as u64) << 32u64),
    ;
    v
}

/// A copy of `bytes` in a vector.
pub fn bytes_to_vec(bytes: &[u8]) -> (v: Vec<u8>)
    ensures
        v@ == bytes@,
{
    let mut v: Vec<u8> = Vec::new();
    let mut i: usize = 0;
    while i < bytes.len()
        invariant
            i <= bytes@.len(),
            v@ == bytes@.subrange(0, i as int),
        decreases bytes@.len() - i,
    {
        v.push(bytes[i]);
        i = i + 1;
        assert(v@ =~= bytes@.subrange(0, i as int));
    }
    assert(bytes@.subrange(0, bytes@.len() as int) =~= bytes@);
    v
}

} // verus!
