//! Little-endian interpretation of byte sequences, used for the slot key
//! fields and for relative-branch displacements.

use vstd::prelude::*;

verus! {

/// The value of a byte sequence read as a little-endian unsigned integer:
/// byte 0 is the least significant.
pub open spec fn le_value(s: Seq<u8>) -> nat
    decreases s.len(),
{
    if s.len() == 0 {
        0
    } else {
        s[0] as nat + 256 * le_value(s.drop_first())
    }
}

/// The 8-byte little-endian encoding of a 64-bit value.
pub open spec fn u64_le(v: u64) -> Seq<u8> {
    seq![
        (v & 0xFF) as u8,
        ((v >> 8) & 0xFF) as u8,
        ((v >> 16) & 0xFF) as u8,
        ((v >> 24) & 0xFF) as u8,
        ((v >> 32) & 0xFF) as u8,
        ((v >> 40) & 0xFF) as u8,
        ((v >> 48) & 0xFF) as u8,
        ((v >> 56) & 0xFF) as u8,
    ]
}

/// The 4-byte little-endian encoding of a 32-bit value.
pub open spec fn u32_le(v: u32) -> Seq<u8> {
    seq![
        (v & 0xFF) as u8,
        ((v >> 8) & 0xFF) as u8,
        ((v >> 16) & 0xFF) as u8,
        ((v >> 24) & 0xFF) as u8,
    ]
}

/// An 8-byte sequence read as a little-endian integer is the usual
/// base-256 polynomial in its bytes.
pub proof fn lemma_le_value_8(s: Seq<u8>)
    requires
        s.len() == 8,
    ensures
        le_value(s) == s[0] + 0x100 * (s[1] as nat) + 0x1_0000 * (s[2] as nat) + 0x100_0000 * (
        s[3] as nat) + 0x1_0000_0000 * (s[4] as nat) + 0x100_0000_0000 * (s[5] as nat)
            + 0x1_0000_0000_0000 * (s[6] as nat) + 0x100_0000_0000_0000 * (s[7] as nat),
        le_value(s) < 0x1_0000_0000_0000_0000,
{
    let s1 = s.drop_first();
    let s2 = s1.drop_first();
    let s3 = s2.drop_first();
    let s4 = s3.drop_first();
    let s5 = s4.drop_first();
    let s6 = s5.drop_first();
    let s7 = s6.drop_first();
    assert(le_value(s7.drop_first()) == 0);
    assert(le_value(s7) == s7[0] + 256 * le_value(s7.drop_first()));
    assert(le_value(s6) == s6[0] + 256 * le_value(s7));
    assert(le_value(s5) == s5[0] + 256 * le_value(s6));
    assert(le_value(s4) == s4[0] + 256 * le_value(s5));
    assert(le_value(s3) == s3[0] + 256 * le_value(s4));
    assert(le_value(s2) == s2[0] + 256 * le_value(s3));
    assert(le_value(s1) == s1[0] + 256 * le_value(s2));
    assert(le_value(s) == s[0] + 256 * le_value(s1));
}

/// A 4-byte sequence read as a little-endian integer is the usual
/// base-256 polynomial in its bytes.
pub proof fn lemma_le_value_4(s: Seq<u8>)
    requires
        s.len() == 4,
    ensures
        le_value(s) == s[0] + 0x100 * (s[1] as nat) + 0x1_0000 * (s[2] as nat) + 0x100_0000 * (
        s[3] as nat),
        le_value(s) < 0x1_0000_0000,
{
    let s1 = s.drop_first();
    let s2 = s1.drop_first();
    let s3 = s2.drop_first();
    assert(le_value(s3.drop_first()) == 0);
    assert(le_value(s3) == s3[0] + 256 * le_value(s3.drop_first()));
    assert(le_value(s2) == s2[0] + 256 * le_value(s3));
    assert(le_value(s1) == s1[0] + 256 * le_value(s2));
    assert(le_value(s) == s[0] + 256 * le_value(s1));
}

/// Encoding a 64-bit value in little-endian order and reading it back
/// yields the value itself.
pub proof fn lemma_u64_le_roundtrip(v: u64)
    ensures
        le_value(u64_le(v)) == v,
{
    lemma_le_value_8(u64_le(v));
    assert(v & 0xFF < 0x100 && (v >> 8) & 0xFF < 0x100 && (v >> 16) & 0xFF < 0x100 && (v >> 24)
        & 0xFF < 0x100 && (v >> 32) & 0xFF < 0x100 && (v >> 40) & 0xFF < 0x100 && (v >> 48) & 0xFF
        < 0x100 && (v >> 56) & 0xFF < 0x100) by (bit_vector);
    assert((v & 0xFF) + 0x100 * ((v >> 8) & 0xFF) + 0x1_0000 * ((v >> 16) & 0xFF) + 0x100_0000 * ((
    v >> 24) & 0xFF) + 0x1_0000_0000 * ((v >> 32) & 0xFF) + 0x100_0000_0000 * ((v >> 40) & 0xFF)
        + 0x1_0000_0000_0000 * ((v >> 48) & 0xFF) + 0x100_0000_0000_0000 * ((v >> 56) & 0xFF)
        == v) by (bit_vector);
}

/// Encoding a 32-bit value in little-endian order and reading it back
/// yields the value itself.
pub proof fn lemma_u32_le_roundtrip(v: u32)
    ensures
        le_value(u32_le(v)) == v,
{
    lemma_le_value_4(u32_le(v));
    assert(v & 0xFF < 0x100 && (v >> 8) & 0xFF < 0x100 && (v >> 16) & 0xFF < 0x100 && (v >> 24)
        & 0xFF < 0x100) by (bit_vector);
    assert((v & 0xFF) + 0x100 * ((v >> 8) & 0xFF) + 0x1_0000 * ((v >> 16) & 0xFF) + 0x100_0000 * ((
    v >> 24) & 0xFF) == v) by (bit_vector);
}

/// Reads the 8 bytes at `off` as a little-endian 64-bit value.
pub fn read_le_u64(b: &Vec<u8>, off: usize) -> (r: u64)
    requires
        off + 8 <= b@.len(),
    ensures
        r == le_value(b@.subrange(off as int, off as int + 8)),
{
    let n: usize = b.len();
    assert(off + 8 <= n);
    let r: u64 = (b[off] as u64) + 0x100 * (b[off + 1] as u64) + 0x1_0000 * (b[off + 2] as u64)
        + 0x100_0000 * (b[off + 3] as u64) + 0x1_0000_0000 * (b[off + 4] as u64)
        + 0x100_0000_0000 * (b[off + 5] as u64) + 0x1_0000_0000_0000 * (b[off + 6] as u64)
        + 0x100_0000_0000_0000 * (b[off + 7] as u64);
    proof {
        lemma_le_value_8(b@.subrange(off as int, off as int + 8));
    }
    r
}

/// Reads the 4 bytes at `off` as a little-endian 32-bit value.
pub fn read_le_u32(b: &Vec<u8>, off: usize) -> (r: u32)
    requires
        off + 4 <= b@.len(),
    ensures
        r == le_value(b@.subrange(off as int, off as int + 4)),
{
    let n: usize = b.len();
    assert(off + 4 <= n);
    let r: u32 = (b[off] as u32) + 0x100 * (b[off + 1] as u32) + 0x1_0000 * (b[off + 2] as u32)
        + 0x100_0000 * (b[off + 3] as u32);
    proof {
        lemma_le_value_4(b@.subrange(off as int, off as int + 4));
    }
    r
}

/// Appends the 8-byte little-endian encoding of `v`.
pub fn push_le_u64(out: &mut Vec<u8>, v: u64)
    ensures
        final(out)@ == old(out)@ + u64_le(v),
{
    out.push((v & 0xFF) as u8);
    out.push(((v >> 8) & 0xFF) as u8);
    out.push(((v >> 16) & 0xFF) as u8);
    out.push(((v >> 24) & 0xFF) as u8);
    out.push(((v >> 32) & 0xFF) as u8);
    out.push(((v >> 40) & 0xFF) as u8);
    out.push(((v >> 48) & 0xFF) as u8);
    out.push(((v >> 56) & 0xFF) as u8);
    assert(out@ =~= old(out)@ + u64_le(v));
}

/// Overwrites the 8 bytes at `off` with the little-endian encoding of
/// `v`, leaving every other byte unchanged.
pub fn write_le_u64_at(out: &mut Vec<u8>, off: usize, v: u64)
    requires
        off + 8 <= old(out)@.len(),
    ensures
        final(out)@.len() == old(out)@.len(),
        final(out)@.subrange(off as int, off as int + 8) == u64_le(v),
        forall|j: int|
            0 <= j < old(out)@.len() && !(off <= j < off + 8) ==> final(out)@[j] == old(out)@[j],
{
    let n: usize = out.len();
    assert(off + 8 <= n);
    proof {
        assert(v & 0xFF < 0x100 && (v >> 8) & 0xFF < 0x100 && (v >> 16) & 0xFF < 0x100 && (v >> 24)
            & 0xFF < 0x100 && (v >> 32) & 0xFF < 0x100 && (v >> 40) & 0xFF < 0x100 && (v >> 48)
            & 0xFF < 0x100 && (v >> 56) & 0xFF < 0x100) by (bit_vector);
    }
    out.set(off, (v & 0xFF) as u8);
    out.set(off + 1, ((v >> 8) & 0xFF) as u8);
    out.set(off + 2, ((v >> 16) & 0xFF) as u8);
    out.set(off + 3, ((v >> 24) & 0xFF) as u8);
    out.set(off + 4, ((v >> 32) & 0xFF) as u8);
    out.set(off + 5, ((v >> 40) & 0xFF) as u8);
    out.set(off + 6, ((v >> 48) & 0xFF) as u8);
    out.set(off + 7, ((v >> 56) & 0xFF) as u8);
    assert(out@.subrange(off as int, off as int + 8) =~= u64_le(v));
}

/// Appends the 4-byte little-endian encoding of `v`.
pub fn push_le_u32(out: &mut Vec<u8>, v: u32)
    ensures
        final(out)@ == old(out)@ + u32_le(v),
{
    out.push((v & 0xFF) as u8);
    out.push(((v >> 8) & 0xFF) as u8);
    out.push(((v >> 16) & 0xFF) as u8);
    out.push(((v >> 24) & 0xFF) as u8);
    assert(out@ =~= old(out)@ + u32_le(v));
}

} // verus!
