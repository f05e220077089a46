//! The boundary to the instruction codec. Decoding x86-64 machine code is
//! delegated to the `iced_x86` crate; everything built on the decoded
//! segments is verified.

use vstd::prelude::*;
use crate::model::{decoded_range, is_rel_branch_bytes, Instruction};

verus! {

/// What the decoder guarantees of the `(address, length)` segments it
/// produces for the byte range `[start, start + total)`: segments of 1 to
/// 15 bytes that tile the range in order.
pub open spec fn segments_tile(segs: Seq<(u64, usize)>, start: int, total: int) -> bool {
    &&& forall|i: int| 0 <= i < segs.len() ==> 1 <= (#[trigger] segs[i]).1 <= 15
    &&& forall|i: int|
        0 <= i < segs.len() ==> start <= (#[trigger] segs[i]).0 && segs[i].0 + segs[i].1 <= start
            + total
    &&& forall|i: int|
        0 <= i < segs.len() - 1 ==> (#[trigger] segs[i + 1]).0 == segs[i].0 + segs[i].1
    &&& segs.len() > 0 ==> segs[0].0 == start && segs[segs.len() - 1].0 + segs[segs.len() - 1].1
        == start + total
    &&& total > 0 ==> segs.len() > 0
}

/// Relies on `iced_x86::Decoder::with_ip` in 64-bit mode: its iterator
/// decodes the whole slice into consecutive instructions, each consuming 1
/// to 15 bytes, with addresses following on from the given start address
/// (truncated byte runs at the end of the slice still come back as one
/// segment covering the rest).
#[verifier::external_body]
fn decode_segments(image: &Vec<u8>, start: usize, end: usize) -> (r: Vec<(u64, usize)>)
    requires
        start <= end <= image@.len(),
        image@.len() <= u64::MAX - 15,
    ensures
        segments_tile(r@, start as int, end - start),
{
    let decoder = iced_x86::Decoder::with_ip(
        64,
        &image[start..end],
        start as u64,
        iced_x86::DecoderOptions::NONE,
    );
    decoder.into_iter().map(|i| (i.ip(), i.len())).collect()
}

/// Copies the byte range `[from, to)` of `v` into a fresh vector.
pub fn copy_range(v: &Vec<u8>, from: usize, to: usize) -> (r: Vec<u8>)
    requires
        from <= to <= v@.len(),
    ensures
        r@ == v@.subrange(from as int, to as int),
{
    let mut r: Vec<u8> = Vec::new();
    let mut i: usize = from;
    while i < to
        invariant
            from <= i <= to <= v@.len(),
            r@ == v@.subrange(from as int, i as int),
        decreases to - i,
    {
        r.push(v[i]);
        i = i + 1;
        assert(r@ =~= v@.subrange(from as int, i as int));
    }
    r
}

/// Decodes the byte range `[start, end)` of `image` into the library's
/// instruction model: instructions that tile the range, each carrying the
/// image bytes it was decoded from and flagged when it is a near relative
/// call or jump.
pub fn decode_stream(image: &Vec<u8>, start: usize, end: usize) -> (r: Vec<Instruction>)
    requires
        start <= end <= image@.len(),
        image@.len() <= u64::MAX - 15,
    ensures
        decoded_range(r@, start as int, end as int, image@),
{
    let segs = decode_segments(image, start, end);
    let mut r: Vec<Instruction> = Vec::new();
    let mut k: usize = 0;
    while k < segs.len()
        invariant
            segments_tile(segs@, start as int, end - start),
            start <= end <= image@.len(),
            0 <= k <= segs@.len(),
            r@.len() == k,
            forall|i: int| 0 <= i < k ==> (#[trigger] r@[i]).wf(),
            forall|i: int|
                0 <= i < k ==> (#[trigger] r@[i]).address == segs@[i].0 && r@[i].byte_length
                    == segs@[i].1,
            forall|i: int|
                0 <= i < k ==> (#[trigger] r@[i]).raw_bytes@ == image@.subrange(
                    r@[i].address as int,
                    r@[i].end(),
                ),
        decreases segs@.len() - k,
    {
        let (ip, len) = segs[k];
        let addr: usize = ip as usize;
        let raw = copy_range(image, addr, addr + len);
        let is_rel = raw[0] == crate::config::CALL_NEAR_OPCODE || raw[0]
            == crate::config::JMP_NEAR_OPCODE;
        assert(is_rel == is_rel_branch_bytes(raw@));
        r.push(
            Instruction {
                address: addr,
                byte_length: len,
                raw_bytes: raw,
                is_relative_branch: is_rel,
            },
        );
        k = k + 1;
    }
    r
}

} // verus!
