//! The function extractor: strips the policy-fixed count of prologue and
//! epilogue instructions and determines the resumption address.

use vstd::prelude::*;
use crate::config::Policy;
use crate::model::{Instruction, PackError, Subroutine};

verus! {

/// Where control must return after the relocated payload runs: the
/// address of the first stripped epilogue instruction, or the end of the
/// subroutine when no epilogue is stripped.
pub open spec fn resumption_address(
    sub: Subroutine,
    instrs: Seq<Instruction>,
    policy: Policy,
) -> int {
    if policy.epilogue_count > 0 {
        instrs[instrs.len() - policy.epilogue_count].address as int
    } else {
        sub.end_address as int
    }
}

/// Strips `policy.prologue_count` leading and `policy.epilogue_count`
/// trailing instructions from the subroutine's decoded instruction list,
/// returning the payload and the resumption address. Fails with
/// `MalformedFunction` exactly when the list has fewer instructions than
/// the two counts together require.
#[verifier::loop_isolation(false)]
pub fn extract_payload(
    sub: &Subroutine,
    instrs: Vec<Instruction>,
    policy: &Policy,
) -> (r: Result<(Vec<Instruction>, usize), PackError>)
    requires
        policy.wf(),
    ensures
        r is Ok <==> instrs@.len() >= policy.prologue_count + policy.epilogue_count,
        r is Err ==> r == Err::<(Vec<Instruction>, usize), PackError>(PackError::MalformedFunction),
        r matches Ok((payload, resume)) ==> payload@ == instrs@.subrange(
            policy.prologue_count as int,
            instrs@.len() - policy.epilogue_count,
        ) && resume == resumption_address(*sub, instrs@, *policy),
{
    let n: usize = instrs.len();
    if n < policy.prologue_count || n - policy.prologue_count < policy.epilogue_count {
        return Err(PackError::MalformedFunction);
    }
    let resume: usize = if policy.epilogue_count > 0 {
        instrs[n - policy.epilogue_count].address
    } else {
        sub.end_address
    };
    let mut trimmed = instrs;
    let keep: usize = n - policy.epilogue_count;
    while trimmed.len() > keep
        invariant
            keep <= trimmed@.len() <= n,
            trimmed@ == instrs@.subrange(0, trimmed@.len() as int),
        decreases trimmed@.len(),
    {
        trimmed.pop();
        assert(trimmed@ =~= instrs@.subrange(0, trimmed@.len() as int));
    }
    let mut dropped: usize = 0;
    while dropped < policy.prologue_count
        invariant
            0 <= dropped <= policy.prologue_count,
            policy.prologue_count + policy.epilogue_count <= n,
            keep == n - policy.epilogue_count,
            trimmed@ == instrs@.subrange(dropped as int, keep as int),
        decreases policy.prologue_count - dropped,
    {
        trimmed.remove(0);
        dropped = dropped + 1;
        assert(trimmed@ =~= instrs@.subrange(dropped as int, keep as int));
    }
    Ok((trimmed, resume))
}

} // verus!
