//! Encoding of 5-byte near relative jumps (`jmp rel32`) and the statement
//! of what such an encoding resolves to. The whole behaviour of this
//! encoding is a few lines of arithmetic, stated and proved here.

use vstd::prelude::*;
use crate::config::JMP_NEAR_OPCODE;
use crate::endian::{le_value, lemma_u32_le_roundtrip, push_le_u32, u32_le};
use crate::model::PackError;

verus! {

/// Whether `target` is reachable from a 5-byte near jump at `from` with a
/// signed 32-bit displacement.
pub open spec fn in_rel32_range(from: int, target: int) -> bool {
    -0x8000_0000 <= target - (from + 5) <= 0x7FFF_FFFF
}

/// The two's-complement 32-bit displacement of a near jump at `from` to
/// `target` (displacements count from the end of the 5-byte instruction).
pub open spec fn rel32_disp(from: int, target: int) -> u32
    recommends
        in_rel32_range(from, target),
{
    let d = target - (from + 5);
    if d >= 0 {
        d as u32
    } else {
        (d + 0x1_0000_0000) as u32
    }
}

/// The 5-byte near-jump encoding: opcode followed by the little-endian
/// displacement.
pub open spec fn jump_rel32(from: int, target: int) -> Seq<u8> {
    seq![JMP_NEAR_OPCODE] + u32_le(rel32_disp(from, target))
}

/// A 32-bit displacement read back as a signed value.
pub open spec fn sign_extend32(d: u32) -> int {
    if d < 0x8000_0000 {
        d as int
    } else {
        d - 0x1_0000_0000
    }
}

/// The target that 5 near-jump bytes placed at `at` resolve to.
pub open spec fn resolved_target(at: int, bytes: Seq<u8>) -> int
    recommends
        bytes.len() == 5,
{
    at + 5 + sign_extend32(le_value(bytes.subrange(1, 5)) as u32)
}

/// Redirect correctness: the bytes of an in-range encoded jump form one
/// relative jump instruction whose resolved target is the jump's target.
pub proof fn lemma_redirect_resolves(from: int, target: int)
    requires
        in_rel32_range(from, target),
    ensures
        jump_rel32(from, target).len() == 5,
        jump_rel32(from, target)[0] == JMP_NEAR_OPCODE,
        resolved_target(from, jump_rel32(from, target)) == target,
{
    let d = rel32_disp(from, target);
    lemma_u32_le_roundtrip(d);
    assert(jump_rel32(from, target).subrange(1, 5) =~= u32_le(d));
}

/// Encodes a near jump from `from` to `target`. Fails with
/// `EncodingError` exactly when the displacement exceeds the signed
/// 32-bit range.
pub fn encode_jump(from: usize, target: usize) -> (r: Result<Vec<u8>, PackError>)
    ensures
        r is Ok <==> in_rel32_range(from as int, target as int),
        r is Err ==> r == Err::<Vec<u8>, PackError>(PackError::EncodingError),
        r matches Ok(j) ==> j@ == jump_rel32(from as int, target as int) && j@.len() == 5,
{
    let d: i128 = target as i128 - (from as i128 + 5);
    if d < -0x8000_0000i128 || d > 0x7FFF_FFFFi128 {
        return Err(PackError::EncodingError);
    }
    let du: u32 = if d >= 0 {
        d as u32
    } else {
        (d + 0x1_0000_0000i128) as u32
    };
    let mut v: Vec<u8> = Vec::new();
    v.push(JMP_NEAR_OPCODE);
    push_le_u32(&mut v, du);
    assert(v@ =~= jump_rel32(from as int, target as int));
    Ok(v)
}

} // verus!
