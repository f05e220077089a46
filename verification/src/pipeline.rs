//! The end-to-end packing pipeline: extract the payload, allocate the
//! cave, build and lay out the disguised slots, and produce the patch
//! plan and the patched image.

use vstd::prelude::*;
use vstd::arithmetic::div_mod::lemma_fundamental_div_mod_converse;
use crate::branch::{encode_jump, in_rel32_range, jump_rel32};
use crate::cave::{allocate_cave, fill_cave};
use crate::config::{Policy, KEY_WIDTH};
use crate::endian::u64_le;
use crate::extract::{extract_payload, resumption_address};
use crate::layout::{backpatch_keys, delta_key, in_key_field, lay_out, real_address};
use crate::model::{Instruction, PackError, PatchPlan, Subroutine};
use crate::patch::{apply_plan, patched_image, plan_in_bounds};
use crate::slots::{all_fit, build_slots, slot_key, slot_padded, terminal_address, wrapped_form};

verus! {

/// What the cave receives: an obfuscated copy of the subroutine's own
/// body, or an externally supplied replacement byte stream that bypasses
/// the disguise and key machinery.
pub enum PayloadStrategy {
    ObfuscateOriginal,
    ReplaceWith(Vec<u8>),
}

/// How the slot keys are computed: statically from the padded bytes, or
/// by the two-pass address-delta backpatch after layout.
#[derive(Clone, Copy, PartialEq, Eq, Structural, Debug)]
pub enum KeyPolicy {
    Static,
    AddressDelta,
}

/// The payload: the decoded instruction list with the prologue and
/// epilogue trimmed.
pub open spec fn payload_of(instrs: Seq<Instruction>, p: Policy) -> Seq<Instruction> {
    instrs.subrange(p.prologue_count as int, instrs.len() - p.epilogue_count)
}

/// Length of the obfuscated cave content: one stride per payload slot
/// plus the terminal slot.
pub open spec fn content_length(n_payload: int, p: Policy) -> int {
    (n_payload + 1) * p.spec_stride()
}

/// The length of what the chosen strategy puts in the cave.
pub open spec fn spec_content_len(
    instrs: Seq<Instruction>,
    p: Policy,
    strategy: PayloadStrategy,
) -> int {
    match strategy {
        PayloadStrategy::ObfuscateOriginal => content_length(payload_of(instrs, p).len() as int, p),
        PayloadStrategy::ReplaceWith(bytes) => bytes@.len() as int,
    }
}

/// The planning decision tree: which failure, if any, planning reports
/// for these inputs, in the order the checks run.
pub open spec fn plan_verdict(
    sub: Subroutine,
    instrs: Seq<Instruction>,
    section_base: usize,
    p: Policy,
    strategy: PayloadStrategy,
) -> Result<(), PackError> {
    let base = section_base + p.cave_offset;
    let entry = sub.start_address as int;
    match strategy {
        PayloadStrategy::ObfuscateOriginal => {
            let payload = payload_of(instrs, p);
            let resume = resumption_address(sub, instrs, p);
            let need = content_length(payload.len() as int, p);
            if instrs.len() < p.prologue_count + p.epilogue_count {
                Err(PackError::MalformedFunction)
            } else if base > usize::MAX {
                Err(PackError::CaveOverflow)
            } else if need > p.cave_capacity || base + need > usize::MAX {
                Err(PackError::CaveOverflow)
            } else if !all_fit(payload, p) {
                Err(PackError::SlotOverflow)
            } else if !in_rel32_range(terminal_address(payload.len() as int, base, p), resume) {
                Err(PackError::EncodingError)
            } else if !in_rel32_range(entry, base) {
                Err(PackError::EncodingError)
            } else if 5 > p.entry_budget {
                Err(PackError::PatchOverflow)
            } else {
                Ok(())
            }
        },
        PayloadStrategy::ReplaceWith(bytes) => {
            if base > usize::MAX {
                Err(PackError::CaveOverflow)
            } else if bytes@.len() > p.cave_capacity || base + bytes@.len() > usize::MAX {
                Err(PackError::CaveOverflow)
            } else if !in_rel32_range(entry, base) {
                Err(PackError::EncodingError)
            } else if 5 > p.entry_budget {
                Err(PackError::PatchOverflow)
            } else {
                Ok(())
            }
        },
    }
}

/// What an accepted plan's cave content holds for the obfuscate-original
/// strategy: every slot's disguised bytes in order at the fixed stride,
/// with the key fields as the chosen key policy dictates.
pub open spec fn obfuscated_content(
    content: Seq<u8>,
    payload: Seq<Instruction>,
    resume: int,
    base: int,
    entry: usize,
    p: Policy,
    key_policy: KeyPolicy,
) -> bool {
    let s = p.spec_stride();
    let ko = p.spec_key_offset();
    &&& content.len() == content_length(payload.len() as int, p)
    &&& key_policy == KeyPolicy::Static ==> forall|i: int|
        0 <= i <= payload.len() ==> #[trigger] content.subrange(i * s, (i + 1) * s)
            == wrapped_form(
            slot_padded(payload, resume, base, entry, p, i),
            slot_key(payload, resume, base, entry, p, i),
            p,
        )
    &&& key_policy == KeyPolicy::AddressDelta ==> (forall|i: int|
        0 <= i <= payload.len() ==> #[trigger] content.subrange(i * s, i * s + ko)
            == wrapped_form(
            slot_padded(payload, resume, base, entry, p, i),
            slot_key(payload, resume, base, entry, p, i),
            p,
        ).subrange(0, ko)) && (forall|i: int|
        0 <= i <= payload.len() ==> #[trigger] content.subrange(i * s + ko, (i + 1) * s)
            == u64_le(if i < payload.len() {
                s as u64
            } else {
                0
            }))
}

/// Everything an accepted plan promises, for either strategy.
pub open spec fn plan_matches(
    plan: PatchPlan,
    sub: Subroutine,
    instrs: Seq<Instruction>,
    section_base: usize,
    p: Policy,
    strategy: PayloadStrategy,
    key_policy: KeyPolicy,
) -> bool {
    let base = section_base + p.cave_offset;
    &&& plan.entry_address == sub.start_address
    &&& plan.cave.base_address == base
    &&& plan.cave.capacity == p.cave_capacity
    &&& plan.wf(p)
    &&& plan.entry_redirect_bytes@ == jump_rel32(sub.start_address as int, base)
    &&& match strategy {
        PayloadStrategy::ObfuscateOriginal => obfuscated_content(
            plan.cave.content_bytes@,
            payload_of(instrs, p),
            resumption_address(sub, instrs, p),
            base,
            sub.start_address,
            p,
            key_policy,
        ),
        PayloadStrategy::ReplaceWith(bytes) => plan.cave.content_bytes@ == bytes@,
    }
}

/// After the backpatch, each slot's key field holds the stride (or zero
/// in the terminal slot) and every byte before a key field still shows
/// the statically keyed wrapped form.
proof fn lemma_backpatched_content(
    content: Seq<u8>,
    buffer: Seq<u8>,
    payload: Seq<Instruction>,
    resume: int,
    base: int,
    entry: usize,
    addresses: Seq<usize>,
    p: Policy,
)
    requires
        p.wf(),
        addresses.len() == payload.len() + 1,
        forall|i: int|
            0 <= i < addresses.len() ==> (#[trigger] addresses[i]) == real_address(base, i, p),
        base >= 0,
        base + addresses.len() * p.spec_stride() <= usize::MAX,
        buffer.len() == addresses.len() * p.spec_stride(),
        forall|i: int|
            0 <= i < addresses.len() ==> #[trigger] buffer.subrange(
                i * p.spec_stride(),
                (i + 1) * p.spec_stride(),
            ) == wrapped_form(
                slot_padded(payload, resume, base, entry, p, i),
                slot_key(payload, resume, base, entry, p, i),
                p,
            ),
        content.len() == buffer.len(),
        forall|i: int|
            0 <= i < addresses.len() ==> #[trigger] content.subrange(
                i * p.spec_stride() + p.spec_key_offset(),
                i * p.spec_stride() + p.spec_key_offset() + KEY_WIDTH,
            ) == u64_le(delta_key(addresses, i)),
        forall|j: int|
            0 <= j < content.len() && !in_key_field(j, p) ==> content[j] == buffer[j],
    ensures
        obfuscated_content(content, payload, resume, base, entry, p, KeyPolicy::AddressDelta),
{
    let s = p.spec_stride();
    let ko = p.spec_key_offset();
    let n1 = addresses.len() as int;
    assert(s == 24);
    assert forall|i: int| 0 <= i < n1 implies #[trigger] content.subrange(i * s + ko, (i + 1) * s)
        == u64_le(if i < payload.len() {
        s as u64
    } else {
        0
    }) by {
        assert(content.subrange(i * s + ko, i * s + ko + KEY_WIDTH) == u64_le(
            delta_key(addresses, i),
        ));
        if i < n1 - 1 {
            assert(addresses[i] == base + i * s + 4);
            assert(addresses[i + 1] == base + (i + 1) * s + 4);
            assert(addresses[i + 1] - addresses[i] == s);
            assert(delta_key(addresses, i) == s as u64);
        }
    }
    assert forall|i: int| 0 <= i < n1 implies #[trigger] content.subrange(i * s, i * s + ko)
        == wrapped_form(
        slot_padded(payload, resume, base, entry, p, i),
        slot_key(payload, resume, base, entry, p, i),
        p,
    ).subrange(0, ko) by {
        let w = wrapped_form(
            slot_padded(payload, resume, base, entry, p, i),
            slot_key(payload, resume, base, entry, p, i),
            p,
        );
        assert(buffer.subrange(i * s, (i + 1) * s) == w);
        assert forall|t: int| 0 <= t < ko implies #[trigger] content[i * s + t] == buffer[i * s
            + t] by {
            lemma_fundamental_div_mod_converse(i * s + t, s, i, t);
            assert((i * s + t) % s == t);
            assert(!in_key_field(i * s + t, p));
            assert(i * s + t < n1 * s) by (nonlinear_arith)
                requires 0 <= i < n1 && 0 <= t < s;
        }
        assert((i + 1) * s <= n1 * s) by (nonlinear_arith)
            requires 0 <= i < n1 && s > 0;
        assert forall|t: int| 0 <= t < ko implies #[trigger] w[t] == buffer[i * s + t] by {
            assert(buffer.subrange(i * s, (i + 1) * s)[t] == buffer[i * s + t]);
        }
        assert(content.subrange(i * s, i * s + ko) =~= w.subrange(0, ko));
    }
}

/// Plans the whole patch: which bytes go where, validated against every
/// policy budget, without touching the image. The verdict spec says
/// exactly which inputs are accepted and which failure each rejected
/// input reports; an accepted plan's every field is pinned down by
/// `plan_matches`.
#[verifier::loop_isolation(false)]
pub fn plan_patch(
    sub: &Subroutine,
    instrs: Vec<Instruction>,
    section_base: usize,
    policy: &Policy,
    strategy: PayloadStrategy,
    key_policy: KeyPolicy,
) -> (r: Result<PatchPlan, PackError>)
    requires
        policy.wf(),
        sub.wf(),
        forall|i: int| 0 <= i < instrs@.len() ==> (#[trigger] instrs@[i]).wf(),
    ensures
        r is Ok <==> plan_verdict(*sub, instrs@, section_base, *policy, strategy) is Ok,
        r matches Err(e) ==> plan_verdict(*sub, instrs@, section_base, *policy, strategy)
            == Err::<(), PackError>(e),
        r matches Ok(plan) ==> plan_matches(
            plan,
            *sub,
            instrs@,
            section_base,
            *policy,
            strategy,
            key_policy,
        ),
{
    let stride = policy.stride();
    proof {
        assert(policy.spec_stride() == 24);
    }
    match strategy {
        PayloadStrategy::ObfuscateOriginal => {
            let (payload, resume) = match extract_payload(sub, instrs, policy) {
                Ok(x) => x,
                Err(e) => {
                    return Err(e);
                },
            };
            let base = match allocate_cave(section_base, policy) {
                Ok(b) => b,
                Err(e) => {
                    return Err(e);
                },
            };
            let n: usize = payload.len();
            proof {
                let s = policy.spec_stride();
                let a = payload@.len() as int;
                assert((a + 1) * s == a * s + s) by (nonlinear_arith);
            }
            let need128: u128 = (n as u128 + 1) * (stride as u128);
            if need128 > policy.cave_capacity as u128 || base as u128 + need128
                > usize::MAX as u128 {
                return Err(PackError::CaveOverflow);
            }
            let ghost payload_snap = payload@;
            let slots = match build_slots(payload, resume, base, sub.start_address, policy) {
                Ok(s) => s,
                Err(e) => {
                    return Err(e);
                },
            };
            let (buffer, addresses) = lay_out(&slots, base, policy);
            proof {
                assert forall|i: int| 0 <= i < slots@.len() implies #[trigger] buffer@.subrange(
                    i * policy.spec_stride(),
                    (i + 1) * policy.spec_stride(),
                ) == wrapped_form(
                    slot_padded(payload_snap, resume as int, base as int, sub.start_address,
                        *policy, i),
                    slot_key(payload_snap, resume as int, base as int, sub.start_address, *policy,
                        i),
                    *policy,
                ) by {
                    assert(slots@[i].padded_bytes@ == slot_padded(payload_snap, resume as int,
                        base as int, sub.start_address, *policy, i));
                    assert(slots@[i].key == slot_key(payload_snap, resume as int, base as int,
                        sub.start_address, *policy, i));
                }
            }
            let content = match key_policy {
                KeyPolicy::Static => buffer,
                KeyPolicy::AddressDelta => {
                    let ghost buffer_snap = buffer@;
                    let patched = match backpatch_keys(buffer, base, &addresses, policy) {
                        Ok(b) => b,
                        Err(e) => {
                            return Err(e);
                        },
                    };
                    proof {
                        lemma_backpatched_content(
                            patched@,
                            buffer_snap,
                            payload_snap,
                            resume as int,
                            base as int,
                            sub.start_address,
                            addresses@,
                            *policy,
                        );
                    }
                    patched
                },
            };
            let cave = match fill_cave(base, content, policy) {
                Ok(c) => c,
                Err(e) => {
                    return Err(e);
                },
            };
            let jump = match encode_jump(sub.start_address, base) {
                Ok(j) => j,
                Err(e) => {
                    return Err(e);
                },
            };
            if jump.len() > policy.entry_budget {
                return Err(PackError::PatchOverflow);
            }
            Ok(PatchPlan { entry_redirect_bytes: jump, entry_address: sub.start_address, cave })
        },
        PayloadStrategy::ReplaceWith(bytes) => {
            let base = match allocate_cave(section_base, policy) {
                Ok(b) => b,
                Err(e) => {
                    return Err(e);
                },
            };
            let cave = match fill_cave(base, bytes, policy) {
                Ok(c) => c,
                Err(e) => {
                    return Err(e);
                },
            };
            let jump = match encode_jump(sub.start_address, base) {
                Ok(j) => j,
                Err(e) => {
                    return Err(e);
                },
            };
            if jump.len() > policy.entry_budget {
                return Err(PackError::PatchOverflow);
            }
            Ok(PatchPlan { entry_redirect_bytes: jump, entry_address: sub.start_address, cave })
        },
    }
}

/// Packs the image end to end: plans the patch and applies it, returning
/// the patched output image together with the accepted plan. The output
/// equals the input everywhere outside the entry-redirect range and the
/// cave range.
pub fn pack_image(
    image: &Vec<u8>,
    sub: &Subroutine,
    instrs: Vec<Instruction>,
    section_base: usize,
    policy: &Policy,
    strategy: PayloadStrategy,
    key_policy: KeyPolicy,
) -> (r: Result<(Vec<u8>, PatchPlan), PackError>)
    requires
        policy.wf(),
        sub.wf(),
        forall|i: int| 0 <= i < instrs@.len() ==> (#[trigger] instrs@[i]).wf(),
    ensures
        r matches Ok((out, plan)) ==> {
            &&& plan_matches(plan, *sub, instrs@, section_base, *policy, strategy, key_policy)
            &&& plan_in_bounds(plan, image@.len() as int)
            &&& out@ == patched_image(image@, plan)
            &&& out@.len() == image@.len()
        },
        r is Ok <==> plan_verdict(*sub, instrs@, section_base, *policy, strategy) is Ok
            && sub.start_address + 5 <= image@.len() && section_base + policy.cave_offset
            + spec_content_len(instrs@, *policy, strategy) <= image@.len(),
        r matches Err(e) ==> plan_verdict(*sub, instrs@, section_base, *policy, strategy)
            == Err::<(), PackError>(e) || (plan_verdict(
            *sub,
            instrs@,
            section_base,
            *policy,
            strategy,
        ) is Ok && e == PackError::CaveOverflow),
{
    let plan = match plan_patch(sub, instrs, section_base, policy, strategy, key_policy) {
        Ok(p) => p,
        Err(e) => {
            return Err(e);
        },
    };
    match apply_plan(image, &plan, policy) {
        Ok(out) => Ok((out, plan)),
        Err(e) => Err(e),
    }
}

} // verus!
