//! The control-flow patcher: produces the output image as a copy of the
//! input with exactly two byte ranges altered — the redirect jump at the
//! subroutine entry and the slot stream in the cave.

use vstd::prelude::*;
use crate::config::Policy;
use crate::model::{PackError, PatchPlan};

verus! {

/// The image that applying a plan produces: the cave content over the
/// cave range, the redirect bytes over the entry range, every other byte
/// as in the input. Where the two ranges meet, the cave content wins, as
/// it is written last.
pub open spec fn patched_image(image: Seq<u8>, plan: PatchPlan) -> Seq<u8> {
    Seq::new(
        image.len(),
        |j: int|
            {
                let entry = plan.entry_address as int;
                let jlen = plan.entry_redirect_bytes@.len() as int;
                let base = plan.cave.base_address as int;
                let clen = plan.cave.content_bytes@.len() as int;
                if base <= j < base + clen {
                    plan.cave.content_bytes@[j - base]
                } else if entry <= j < entry + jlen {
                    plan.entry_redirect_bytes@[j - entry]
                } else {
                    image[j]
                }
            },
    )
}

/// Both of a plan's target ranges lie inside an image of length `len`.
pub open spec fn plan_in_bounds(plan: PatchPlan, len: int) -> bool {
    &&& plan.entry_address + plan.entry_redirect_bytes@.len() <= len
    &&& plan.cave.base_address + plan.cave.content_bytes@.len() <= len
}

/// Identity outside the patched ranges: every byte of the patched image
/// outside the entry-redirect range and the cave range equals the input.
pub proof fn lemma_identity_outside_ranges(image: Seq<u8>, plan: PatchPlan)
    ensures
        patched_image(image, plan).len() == image.len(),
        forall|j: int|
            0 <= j < image.len() && !(plan.entry_address <= j < plan.entry_address
                + plan.entry_redirect_bytes@.len()) && !(plan.cave.base_address <= j
                < plan.cave.base_address + plan.cave.content_bytes@.len()) ==> patched_image(
                image,
                plan,
            )[j] == image[j],
{
}

/// Copies the image bytes into a fresh output buffer.
#[verifier::loop_isolation(false)]
fn copy_image(image: &Vec<u8>) -> (r: Vec<u8>)
    ensures
        r@ == image@,
{
    let mut r: Vec<u8> = Vec::new();
    let mut i: usize = 0;
    while i < image.len()
        invariant
            0 <= i <= image@.len(),
            r@ == image@.subrange(0, i as int),
        decreases image@.len() - i,
    {
        r.push(image[i]);
        i = i + 1;
        assert(r@ =~= image@.subrange(0, i as int));
    }
    assert(r@ =~= image@);
    r
}

/// Overwrites `out[at .. at + src.len())` with `src`.
#[verifier::loop_isolation(false)]
fn write_range(out: &mut Vec<u8>, at: usize, src: &Vec<u8>)
    requires
        at + src@.len() <= old(out)@.len(),
    ensures
        final(out)@.len() == old(out)@.len(),
        final(out)@.subrange(at as int, at + src@.len()) == src@,
        forall|j: int|
            0 <= j < old(out)@.len() && !(at <= j < at + src@.len()) ==> final(out)@[j] == old(
                out,
            )@[j],
{
    let olen: usize = out.len();
    assert(at + src@.len() <= olen);
    let mut i: usize = 0;
    while i < src.len()
        invariant
            0 <= i <= src@.len(),
            out@.len() == old(out)@.len(),
            forall|j: int| at <= j < at + i ==> out@[j] == src@[j - at],
            forall|j: int|
                0 <= j < old(out)@.len() && !(at <= j < at + i) ==> out@[j] == old(out)@[j],
        decreases src@.len() - i,
    {
        out.set(at + i, src[i]);
        i = i + 1;
    }
    assert(out@.subrange(at as int, at + src@.len()) =~= src@);
}

/// Applies a validated plan: the output is a copy of the input image with
/// the redirect bytes at the entry address and the cave content at the
/// cave base, and no other byte altered. Fails with `PatchOverflow` when
/// the redirect exceeds the policy's entry byte budget, and with
/// `CaveOverflow` when the content exceeds the cave's capacity or either
/// range runs past the image; a failed plan patches nothing.
pub fn apply_plan(image: &Vec<u8>, plan: &PatchPlan, policy: &Policy) -> (r: Result<
    Vec<u8>,
    PackError,
>)
    ensures
        r is Ok <==> plan.entry_redirect_bytes@.len() <= policy.entry_budget && plan.cave.wf()
            && plan_in_bounds(*plan, image@.len() as int),
        r == Err::<Vec<u8>, PackError>(PackError::PatchOverflow) <==> plan.entry_redirect_bytes@.len()
            > policy.entry_budget,
        r is Err ==> r == Err::<Vec<u8>, PackError>(PackError::PatchOverflow) || r == Err::<
            Vec<u8>,
            PackError,
        >(PackError::CaveOverflow),
        r matches Ok(out) ==> out@ == patched_image(image@, *plan),
{
    if plan.entry_redirect_bytes.len() > policy.entry_budget {
        return Err(PackError::PatchOverflow);
    }
    if plan.cave.content_bytes.len() > plan.cave.capacity {
        return Err(PackError::CaveOverflow);
    }
    let ilen: usize = image.len();
    if plan.entry_address > ilen || ilen - plan.entry_address < plan.entry_redirect_bytes.len() {
        return Err(PackError::CaveOverflow);
    }
    if plan.cave.base_address > ilen || ilen - plan.cave.base_address
        < plan.cave.content_bytes.len() {
        return Err(PackError::CaveOverflow);
    }
    let mut out = copy_image(image);
    write_range(&mut out, plan.entry_address, &plan.entry_redirect_bytes);
    write_range(&mut out, plan.cave.base_address, &plan.cave.content_bytes);
    assert(out@ =~= patched_image(image@, *plan));
    Ok(out)
}

} // verus!
