//! The slot obfuscator: packs each payload instruction into a fixed-width
//! disguised slot, fixes up relative-branch displacements for the new
//! location, and computes the cross-slot key relation.

use vstd::prelude::*;
use vstd::wrapping::{u32_specs, u64_specs};
use crate::branch::{encode_jump, in_rel32_range, jump_rel32};
use crate::config::{Policy, DECOY_WIDTH, JMP_SHORT_OPCODE, KEY_WIDTH, REAL_OFFSET};
use crate::endian::{le_value, lemma_le_value_4, lemma_le_value_8, push_le_u32, push_le_u64,
    read_le_u32, read_le_u64, u32_le, u64_le};
use crate::model::{Instruction, PackError, Slot};

verus! {

/// `n` copies of the filler byte.
pub open spec fn filler_seq(n: int, filler: u8) -> Seq<u8> {
    Seq::new(n as nat, |i: int| filler)
}

/// The relocation fixup applies to near relative calls and jumps, whose
/// last four bytes are a 32-bit displacement.
pub open spec fn fixup_applies(instr: Instruction) -> bool {
    instr.is_relative_branch && instr.byte_length == 5
}

/// The 32-bit displacement stored in a near relative branch.
pub open spec fn branch_disp(raw: Seq<u8>) -> u32
    recommends
        raw.len() == 5,
{
    le_value(raw.subrange(1, 5)) as u32
}

/// A displacement after relocation: the original, less the distance the
/// instruction moved, less the policy's fixed layout adjustment; all
/// wrapping 32-bit subtractions.
pub open spec fn fixed_disp(disp: u32, delta: u32, adjust: u32) -> u32 {
    u32_specs::wrapping_sub(u32_specs::wrapping_sub(disp, delta), adjust)
}

/// How far the payload moves, as the truncated 32-bit difference between
/// the cave base and the subroutine entry.
pub open spec fn relocation_delta(cave_base: usize, entry: usize) -> u32 {
    (u64_specs::wrapping_sub(cave_base as u64, entry as u64) & 0xFFFF_FFFF) as u32
}

/// An instruction's bytes after the relocation fixup: relative branches
/// get their displacement rewritten, everything else is copied verbatim.
pub open spec fn fixed_body(instr: Instruction, delta: u32, p: Policy) -> Seq<u8> {
    if fixup_applies(instr) {
        seq![instr.raw_bytes@[0]] + u32_le(
            fixed_disp(branch_disp(instr.raw_bytes@), delta, p.branch_adjust),
        )
    } else {
        instr.raw_bytes@
    }
}

/// A slot's padded bytes: the fixed-up instruction bytes, filled with the
/// policy's no-op byte up to exactly the slot width.
pub open spec fn padded_form(instr: Instruction, delta: u32, p: Policy) -> Seq<u8> {
    fixed_body(instr, delta, p) + filler_seq(
        p.slot_width - fixed_body(instr, delta, p).len(),
        p.filler,
    )
}

/// Computes the relocation delta between the cave base and the entry.
pub fn compute_relocation_delta(cave_base: usize, entry: usize) -> (r: u32)
    ensures
        r == relocation_delta(cave_base, entry),
{
    let d64: u64 = (cave_base as u64).wrapping_sub(entry as u64);
    proof {
        assert(d64 & 0xFFFF_FFFF < 0x1_0000_0000) by (bit_vector);
    }
    (d64 & 0xFFFF_FFFF) as u32
}

/// Packs one instruction into its padded slot bytes, fixing up a relative
/// branch's displacement for the move from `entry` to the cave. Fails
/// with `SlotOverflow` exactly when the instruction's encoding exceeds
/// the slot width.
#[verifier::loop_isolation(false)]
pub fn pad_instruction(instr: &Instruction, delta: u32, policy: &Policy) -> (r: Result<
    Vec<u8>,
    PackError,
>)
    requires
        policy.wf(),
        instr.wf(),
    ensures
        r is Ok <==> instr.byte_length <= policy.slot_width,
        r is Err ==> r == Err::<Vec<u8>, PackError>(PackError::SlotOverflow),
        r matches Ok(padded) ==> padded@ == padded_form(*instr, delta, *policy) && padded@.len()
            == policy.slot_width,
{
    if instr.byte_length > policy.slot_width {
        return Err(PackError::SlotOverflow);
    }
    let mut v: Vec<u8> = Vec::new();
    if instr.is_relative_branch && instr.byte_length == 5 {
        let disp = read_le_u32(&instr.raw_bytes, 1);
        proof {
            lemma_le_value_4(instr.raw_bytes@.subrange(1, 5));
        }
        let f = disp.wrapping_sub(delta).wrapping_sub(policy.branch_adjust);
        v.push(instr.raw_bytes[0]);
        push_le_u32(&mut v, f);
        assert(v@ =~= fixed_body(*instr, delta, *policy));
    } else {
        let mut j: usize = 0;
        while j < instr.byte_length
            invariant
                0 <= j <= instr.byte_length,
                v@ == instr.raw_bytes@.subrange(0, j as int),
            decreases instr.byte_length - j,
        {
            v.push(instr.raw_bytes[j]);
            j = j + 1;
            assert(v@ =~= instr.raw_bytes@.subrange(0, j as int));
        }
        assert(v@ =~= fixed_body(*instr, delta, *policy));
    }
    let body_len: usize = v.len();
    while v.len() < policy.slot_width
        invariant
            body_len == fixed_body(*instr, delta, *policy).len(),
            body_len <= v@.len() <= policy.slot_width,
            v@ == fixed_body(*instr, delta, *policy) + filler_seq(
                v@.len() - body_len,
                policy.filler,
            ),
        decreases policy.slot_width - v@.len(),
    {
        v.push(policy.filler);
        assert(v@ =~= fixed_body(*instr, delta, *policy) + filler_seq(
            v@.len() - body_len,
            policy.filler,
        ));
    }
    assert(v@ =~= padded_form(*instr, delta, *policy));
    Ok(v)
}

/// Round trip for unmodified instructions: an instruction that is not
/// subject to the relative-branch fixup passes into its slot verbatim —
/// the padded bytes begin with exactly the original encoding, followed
/// only by filler, so re-decoding them at the same width yields the
/// original bytes unchanged.
pub proof fn lemma_verbatim_round_trip(instr: Instruction, delta: u32, p: Policy)
    requires
        p.wf(),
        instr.wf(),
        !fixup_applies(instr),
        instr.byte_length <= p.slot_width,
    ensures
        padded_form(instr, delta, p).len() == p.slot_width,
        padded_form(instr, delta, p).subrange(0, instr.byte_length as int) == instr.raw_bytes@,
        forall|j: int|
            instr.byte_length <= j < p.slot_width ==> padded_form(instr, delta, p)[j] == p.filler,
{
    assert(padded_form(instr, delta, p).subrange(0, instr.byte_length as int)
        =~= instr.raw_bytes@);
}

/// Padded slot bytes reinterpreted as one 64-bit little-endian value.
pub open spec fn as_u64(s: Seq<u8>) -> u64
    recommends
        s.len() == KEY_WIDTH,
{
    le_value(s) as u64
}

/// The disguised form of one slot: a short jump over the decoy bytes, the
/// padded instruction bytes, a short jump over the second decoy pair and
/// the key field, and the key itself. Execution skips every decoy byte;
/// a linear disassembler decodes the decoys as the start of a plausible
/// instruction that swallows the real bytes.
pub open spec fn wrapped_form(padded: Seq<u8>, key: u64, p: Policy) -> Seq<u8> {
    seq![JMP_SHORT_OPCODE, DECOY_WIDTH as u8, p.decoy_opcode, p.decoy_modrm] + padded + seq![
        JMP_SHORT_OPCODE,
        (DECOY_WIDTH + KEY_WIDTH) as u8,
        p.decoy_opcode,
        p.decoy_modrm,
    ] + u64_le(key)
}

/// Disguise layout: a wrapped slot begins with the short jump and decoy
/// bytes, so decoding linearly from the slot boundary meets the jump and
/// decoy first; the real bytes only start at `REAL_OFFSET`, and the key
/// field sits at the policy's fixed key offset.
pub proof fn lemma_disguise_layout(padded: Seq<u8>, key: u64, p: Policy)
    requires
        p.wf(),
        padded.len() == p.slot_width,
    ensures
        wrapped_form(padded, key, p).len() == p.spec_stride(),
        wrapped_form(padded, key, p)[0] == JMP_SHORT_OPCODE,
        wrapped_form(padded, key, p)[1] == DECOY_WIDTH as u8,
        wrapped_form(padded, key, p)[2] == p.decoy_opcode,
        wrapped_form(padded, key, p)[3] == p.decoy_modrm,
        wrapped_form(padded, key, p).subrange(
            REAL_OFFSET as int,
            REAL_OFFSET + p.slot_width,
        ) == padded,
        wrapped_form(padded, key, p).subrange(
            p.spec_key_offset(),
            p.spec_key_offset() + KEY_WIDTH,
        ) == u64_le(key),
        le_value(
            wrapped_form(padded, key, p).subrange(
                p.spec_key_offset(),
                p.spec_key_offset() + KEY_WIDTH,
            ),
        ) == key,
{
    assert(wrapped_form(padded, key, p).subrange(REAL_OFFSET as int, REAL_OFFSET + p.slot_width)
        =~= padded);
    assert(wrapped_form(padded, key, p).subrange(p.spec_key_offset(), p.spec_key_offset()
        + KEY_WIDTH) =~= u64_le(key));
    crate::endian::lemma_u64_le_roundtrip(key);
}

/// The rationale of the static key relation: the runtime stub can rebuild
/// slot `i + 1`'s value by adding slot `i`'s key to slot `i`'s value,
/// without either value appearing in the image as a meaningful constant.
pub proof fn lemma_key_reconstruction(here: u64, next: u64)
    ensures
        u64_specs::wrapping_add(here, u64_specs::wrapping_sub(next, here)) == next,
{
}

/// Wraps padded slot bytes in the disguise template.
#[verifier::loop_isolation(false)]
pub fn wrap_slot(padded: &Vec<u8>, key: u64, policy: &Policy) -> (r: Vec<u8>)
    requires
        policy.wf(),
        padded@.len() == policy.slot_width,
    ensures
        r@ == wrapped_form(padded@, key, *policy),
        r@.len() == policy.spec_stride(),
{
    let mut v: Vec<u8> = Vec::new();
    v.push(JMP_SHORT_OPCODE);
    v.push(DECOY_WIDTH as u8);
    v.push(policy.decoy_opcode);
    v.push(policy.decoy_modrm);
    let mut j: usize = 0;
    while j < padded.len()
        invariant
            0 <= j <= padded@.len(),
            v@ == seq![
                JMP_SHORT_OPCODE,
                DECOY_WIDTH as u8,
                policy.decoy_opcode,
                policy.decoy_modrm,
            ] + padded@.subrange(0, j as int),
        decreases padded@.len() - j,
    {
        v.push(padded[j]);
        j = j + 1;
        assert(v@ =~= seq![
            JMP_SHORT_OPCODE,
            DECOY_WIDTH as u8,
            policy.decoy_opcode,
            policy.decoy_modrm,
        ] + padded@.subrange(0, j as int));
    }
    v.push(JMP_SHORT_OPCODE);
    v.push((DECOY_WIDTH + KEY_WIDTH) as u8);
    v.push(policy.decoy_opcode);
    v.push(policy.decoy_modrm);
    push_le_u64(&mut v, key);
    assert(v@ =~= wrapped_form(padded@, key, *policy));
    v
}

/// Computes the static key relation over a list of padded slot bytes:
/// the key of slot `i` is the wrapping 64-bit difference between the
/// padded bytes of slot `i + 1` and of slot `i`, both read as
/// little-endian values; the final slot's key is zero.
#[verifier::loop_isolation(false)]
pub fn compute_keys(padded: &Vec<Vec<u8>>) -> (keys: Vec<u64>)
    requires
        forall|i: int| 0 <= i < padded@.len() ==> (#[trigger] padded@[i])@.len() == KEY_WIDTH,
    ensures
        keys@.len() == padded@.len(),
        forall|i: int|
            0 <= i < padded@.len() - 1 ==> keys@[i] == u64_specs::wrapping_sub(
                as_u64(padded@[i + 1]@),
                as_u64(padded@[i]@),
            ),
        padded@.len() > 0 ==> keys@[padded@.len() - 1] == 0,
{
    let n: usize = padded.len();
    let mut keys: Vec<u64> = Vec::new();
    let mut i: usize = 0;
    while i < n
        invariant
            0 <= i <= n,
            keys@.len() == i,
            forall|j: int|
                0 <= j < i && j < n - 1 ==> keys@[j] == u64_specs::wrapping_sub(
                    as_u64(padded@[j + 1]@),
                    as_u64(padded@[j]@),
                ),
            forall|j: int| 0 <= j < i && j == n - 1 ==> keys@[j] == 0,
        decreases n - i,
    {
        if i + 1 < n {
            let here = read_le_u64(&padded[i], 0);
            let next = read_le_u64(&padded[i + 1], 0);
            proof {
                lemma_le_value_8(padded@[i as int]@);
                lemma_le_value_8(padded@[i + 1]@);
                assert(padded@[i as int]@.subrange(0, 8) =~= padded@[i as int]@);
                assert(padded@[i + 1]@.subrange(0, 8) =~= padded@[i + 1]@);
            }
            keys.push(next.wrapping_sub(here));
        } else {
            keys.push(0);
        }
        i = i + 1;
    }
    keys
}

/// The address, inside the cave, of the terminal slot's real bytes: the
/// terminal slot follows the payload slots at the fixed stride, and its
/// real bytes sit `REAL_OFFSET` into the slot.
pub open spec fn terminal_address(n_payload: int, cave_base: int, p: Policy) -> int {
    cave_base + n_payload * p.spec_stride() + REAL_OFFSET
}

/// The padded bytes of slot `i` of the cave: payload slots carry their
/// fixed-up instruction, the terminal slot a near jump to the resumption
/// address.
pub open spec fn slot_padded(
    payload: Seq<Instruction>,
    resume: int,
    cave_base: int,
    entry: usize,
    p: Policy,
    i: int,
) -> Seq<u8> {
    if i < payload.len() {
        padded_form(payload[i], relocation_delta(cave_base as usize, entry), p)
    } else {
        jump_rel32(terminal_address(payload.len() as int, cave_base, p), resume) + filler_seq(
            p.slot_width - 5,
            p.filler,
        )
    }
}

/// The key of slot `i` of the cave, under the static key policy.
pub open spec fn slot_key(
    payload: Seq<Instruction>,
    resume: int,
    cave_base: int,
    entry: usize,
    p: Policy,
    i: int,
) -> u64 {
    if i < payload.len() {
        u64_specs::wrapping_sub(
            as_u64(slot_padded(payload, resume, cave_base, entry, p, i + 1)),
            as_u64(slot_padded(payload, resume, cave_base, entry, p, i)),
        )
    } else {
        0
    }
}

/// Every payload instruction's encoding fits the slot width.
pub open spec fn all_fit(payload: Seq<Instruction>, p: Policy) -> bool {
    forall|i: int| 0 <= i < payload.len() ==> (#[trigger] payload[i]).byte_length <= p.slot_width
}

/// Builds the cave's slot sequence for a payload: one disguised slot per
/// instruction, then the terminal slot jumping to the resumption address,
/// with the static key relation over all padded bytes. Fails with
/// `SlotOverflow` when some instruction exceeds the slot width, else with
/// `EncodingError` when the terminal jump cannot reach the resumption
/// address.
#[verifier::loop_isolation(false)]
pub fn build_slots(
    payload: Vec<Instruction>,
    resume: usize,
    cave_base: usize,
    entry: usize,
    policy: &Policy,
) -> (r: Result<Vec<Slot>, PackError>)
    requires
        policy.wf(),
        forall|i: int| 0 <= i < payload@.len() ==> (#[trigger] payload@[i]).wf(),
        cave_base + (payload@.len() + 1) * policy.spec_stride() <= usize::MAX,
    ensures
        r is Ok <==> all_fit(payload@, *policy) && in_rel32_range(
            terminal_address(payload@.len() as int, cave_base as int, *policy),
            resume as int,
        ),
        r == Err::<Vec<Slot>, PackError>(PackError::SlotOverflow) <==> !all_fit(
            payload@,
            *policy,
        ),
        r == Err::<Vec<Slot>, PackError>(PackError::EncodingError) <==> all_fit(payload@, *policy)
            && !in_rel32_range(
            terminal_address(payload@.len() as int, cave_base as int, *policy),
            resume as int,
        ),
        r matches Ok(slots) ==> {
            &&& slots@.len() == payload@.len() + 1
            &&& forall|i: int| 0 <= i < slots@.len() ==> (#[trigger] slots@[i]).index == i
            &&& forall|i: int|
                0 <= i < slots@.len() ==> (#[trigger] slots@[i]).padded_bytes@ == slot_padded(
                    payload@,
                    resume as int,
                    cave_base as int,
                    entry,
                    *policy,
                    i,
                )
            &&& forall|i: int|
                0 <= i < slots@.len() ==> (#[trigger] slots@[i]).padded_bytes@.len()
                    == policy.slot_width
            &&& forall|i: int|
                0 <= i < slots@.len() ==> (#[trigger] slots@[i]).key == slot_key(
                    payload@,
                    resume as int,
                    cave_base as int,
                    entry,
                    *policy,
                    i,
                )
            &&& forall|i: int|
                0 <= i < slots@.len() ==> (#[trigger] slots@[i]).wrapped_bytes@ == wrapped_form(
                    slots@[i].padded_bytes@,
                    slots@[i].key,
                    *policy,
                )
            &&& forall|i: int|
                0 <= i < payload@.len() ==> (#[trigger] slots@[i]).source_instruction == Some(
                    payload@[i],
                )
            &&& slots@[slots@.len() - 1].source_instruction is None
        },
{
    let n: usize = payload.len();
    let delta = compute_relocation_delta(cave_base, entry);
    let stride = policy.stride();
    proof {
        let s = policy.spec_stride();
        assert(s == 24);
        assert((payload@.len() + 1) * s == payload@.len() * s + s) by (nonlinear_arith);
    }
    let term_addr: usize = cave_base + n * stride + REAL_OFFSET;
    let mut padded_list: Vec<Vec<u8>> = Vec::new();
    let mut i: usize = 0;
    while i < n
        invariant
            0 <= i <= n,
            padded_list@.len() == i,
            forall|j: int| 0 <= j < i ==> (#[trigger] payload@[j]).byte_length <= policy.slot_width,
            forall|j: int|
                0 <= j < i ==> (#[trigger] padded_list@[j])@ == padded_form(
                    payload@[j],
                    delta,
                    *policy,
                ),
            forall|j: int|
                0 <= j < i ==> (#[trigger] padded_list@[j])@.len() == policy.slot_width,
        decreases n - i,
    {
        match pad_instruction(&payload[i], delta, policy) {
            Ok(p) => padded_list.push(p),
            Err(e) => {
                return Err(e);
            },
        }
        i = i + 1;
    }
    let mut term = match encode_jump(term_addr, resume) {
        Ok(j) => j,
        Err(e) => {
            return Err(e);
        },
    };
    while term.len() < policy.slot_width
        invariant
            5 <= term@.len() <= policy.slot_width,
            term@ == jump_rel32(term_addr as int, resume as int) + filler_seq(
                term@.len() - 5,
                policy.filler,
            ),
        decreases policy.slot_width - term@.len(),
    {
        term.push(policy.filler);
        assert(term@ =~= jump_rel32(term_addr as int, resume as int) + filler_seq(
            term@.len() - 5,
            policy.filler,
        ));
    }
    padded_list.push(term);
    assert(forall|j: int|
        0 <= j < n + 1 ==> (#[trigger] padded_list@[j])@ == slot_padded(
            payload@,
            resume as int,
            cave_base as int,
            entry,
            *policy,
            j,
        ));
    let keys = compute_keys(&padded_list);
    let ghost all_padded = padded_list@;
    let mut slots: Vec<Slot> = Vec::new();
    let mut rest = payload;
    let mut padded_rest = padded_list;
    let mut k: usize = 0;
    while k < n + 1
        invariant
            0 <= k <= n + 1,
            k <= n ==> rest@ == payload@.subrange(k as int, n as int),
            k > n ==> rest@.len() == 0,
            padded_rest@ == all_padded.subrange(k as int, (n + 1) as int),
            slots@.len() == k,
            forall|j: int| 0 <= j < k ==> (#[trigger] slots@[j]).index == j,
            forall|j: int|
                0 <= j < k ==> (#[trigger] slots@[j]).padded_bytes == all_padded[j],
            forall|j: int| 0 <= j < k ==> (#[trigger] slots@[j]).key == keys@[j],
            forall|j: int|
                0 <= j < k ==> (#[trigger] slots@[j]).wrapped_bytes@ == wrapped_form(
                    all_padded[j]@,
                    keys@[j],
                    *policy,
                ),
            forall|j: int|
                0 <= j < k && j < n ==> (#[trigger] slots@[j]).source_instruction == Some(
                    payload@[j],
                ),
            forall|j: int|
                0 <= j < k && j == n ==> (#[trigger] slots@[j]).source_instruction is None,
        decreases n + 1 - k,
    {
        let padded = padded_rest.remove(0);
        assert(padded == all_padded[k as int]);
        let key = keys[k];
        let src = if k < n {
            Some(rest.remove(0))
        } else {
            None
        };
        let wrapped = wrap_slot(&padded, key, policy);
        slots.push(
            Slot {
                index: k,
                source_instruction: src,
                padded_bytes: padded,
                wrapped_bytes: wrapped,
                key,
            },
        );
        k = k + 1;
        proof {
            assert(padded_rest@ =~= all_padded.subrange(k as int, (n + 1) as int));
            if k <= n {
                assert(rest@ =~= payload@.subrange(k as int, n as int));
            }
        }
    }
    proof {
        assert(forall|j: int|
            0 <= j < n ==> slot_key(payload@, resume as int, cave_base as int, entry, *policy, j)
                == u64_specs::wrapping_sub(as_u64(all_padded[j + 1]@), as_u64(all_padded[j]@)));
    }
    Ok(slots)
}

} // verus!
