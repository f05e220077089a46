//! The data model: subroutines, decoded instructions, slots, caves,
//! patch plans, and the error taxonomy.

use vstd::prelude::*;
use crate::config::{Policy, CALL_NEAR_OPCODE, JMP_NEAR_OPCODE};

verus! {

/// The failure taxonomy. Every failure is a structural mismatch between
/// the policy constants and the input; none is retried.
#[derive(Clone, Copy, Debug, PartialEq, Eq, Structural)]
pub enum PackError {
    /// A symbol or section is absent from the image's metadata.
    NotFound,
    /// Fewer instructions than the prologue and epilogue trim counts need.
    MalformedFunction,
    /// An instruction's encoding exceeds the fixed slot width.
    SlotOverflow,
    /// The cave content does not fit the reserved capacity.
    CaveOverflow,
    /// The redirect jump exceeds the bytes reserved at the entry.
    PatchOverflow,
    /// A branch target cannot be encoded as a 32-bit displacement.
    EncodingError,
    /// The backpatch pass could not locate a key field: the laid-out
    /// buffer disagrees with the fixed per-slot stride.
    KeyComputationError,
}

/// A named function inside the input image, located via its metadata.
#[derive(Debug)]
pub struct Subroutine {
    pub name: String,
    pub start_address: usize,
    pub end_address: usize,
    pub byte_length: usize,
}

impl Subroutine {
    pub open spec fn wf(self) -> bool {
        self.start_address + self.byte_length == self.end_address
    }
}

/// True of instruction bytes that begin with a near relative call or jump,
/// the branches whose 32-bit displacement must be fixed up on relocation.
pub open spec fn is_rel_branch_bytes(s: Seq<u8>) -> bool {
    s.len() > 0 && (s[0] == CALL_NEAR_OPCODE || s[0] == JMP_NEAR_OPCODE)
}

/// One decoded instruction: its address in the image, its encoded bytes,
/// and whether it is a relative branch.
#[derive(Debug)]
pub struct Instruction {
    pub address: usize,
    pub byte_length: usize,
    pub raw_bytes: Vec<u8>,
    pub is_relative_branch: bool,
}

impl Instruction {
    pub open spec fn wf(self) -> bool {
        &&& self.byte_length == self.raw_bytes@.len()
        &&& self.byte_length >= 1
        &&& self.address + self.byte_length <= usize::MAX
        &&& self.is_relative_branch == is_rel_branch_bytes(self.raw_bytes@)
    }

    /// The address one past the instruction's last byte.
    pub open spec fn end(self) -> int {
        self.address + self.byte_length
    }
}

/// The decoded form of the byte range `[start, end)` of `image`:
/// well-formed instructions that tile the range in order, each carrying
/// exactly the image bytes it was decoded from.
pub open spec fn decoded_range(
    instrs: Seq<Instruction>,
    start: int,
    end: int,
    image: Seq<u8>,
) -> bool {
    &&& forall|i: int| 0 <= i < instrs.len() ==> (#[trigger] instrs[i]).wf()
    &&& forall|i: int|
        0 <= i < instrs.len() ==> start <= (#[trigger] instrs[i]).address && instrs[i].end() <= end
    &&& forall|i: int|
        0 <= i < instrs.len() ==> (#[trigger] instrs[i]).raw_bytes@ == image.subrange(
            instrs[i].address as int,
            instrs[i].end(),
        )
    &&& forall|i: int|
        0 <= i < instrs.len() - 1 ==> (#[trigger] instrs[i + 1]).address == instrs[i].end()
    &&& instrs.len() > 0 ==> instrs[0].address == start && instrs[instrs.len() - 1].end() == end
    &&& start < end ==> instrs.len() > 0
}

/// A fixed-width disguised container for one relocated instruction.
#[derive(Debug)]
pub struct Slot {
    /// Position of the slot in the cave's slot sequence.
    pub index: usize,
    /// The instruction the slot carries; absent for the terminal jump slot.
    pub source_instruction: Option<Instruction>,
    /// The instruction's bytes, displacement-fixed and padded to the slot width.
    pub padded_bytes: Vec<u8>,
    /// The full disguised form: jumps, decoys, padded bytes and key field.
    pub wrapped_bytes: Vec<u8>,
    /// The slot's key, consumed by the runtime reconstruction stub.
    pub key: u64,
}

/// An unused byte region inside an existing section, repurposed to hold
/// the relocated payload.
#[derive(Debug)]
pub struct Cave {
    pub base_address: usize,
    pub capacity: usize,
    pub content_bytes: Vec<u8>,
}

impl Cave {
    pub open spec fn wf(self) -> bool {
        &&& self.content_bytes@.len() <= self.capacity
        &&& self.base_address + self.content_bytes@.len() <= usize::MAX
    }
}

/// The complete, validated set of byte ranges to overwrite in the image.
/// Applying a plan is the only mutation of the image.
#[derive(Debug)]
pub struct PatchPlan {
    pub entry_redirect_bytes: Vec<u8>,
    pub entry_address: usize,
    pub cave: Cave,
}

impl PatchPlan {
    pub open spec fn wf(self, policy: Policy) -> bool {
        &&& self.cave.wf()
        &&& self.entry_redirect_bytes@.len() <= policy.entry_budget
    }
}

} // verus!
