//! The policy constants that drive the engine: slot geometry, the
//! prologue/epilogue trim counts, the decoy opcode bytes, and the cave
//! placement inside the host section.

use vstd::prelude::*;

verus! {

/// Opcode of a 2-byte short relative jump (`jmp rel8`).
pub const JMP_SHORT_OPCODE: u8 = 0xEB;

/// Opcode of a 5-byte near relative jump (`jmp rel32`).
pub const JMP_NEAR_OPCODE: u8 = 0xE9;

/// Opcode of a 5-byte near relative call (`call rel32`).
pub const CALL_NEAR_OPCODE: u8 = 0xE8;

/// Width in bytes of a slot's key field.
pub const KEY_WIDTH: usize = 8;

/// Number of decoy opcode bytes after each short jump.
pub const DECOY_WIDTH: usize = 2;

/// Offset of the real (padded) instruction bytes inside a wrapped slot:
/// they sit behind the first short jump and decoy pair.
pub const REAL_OFFSET: usize = 4;

/// The policy constants of one packing run. All "magic" numbers of the
/// engine live here so that an alternate target is a data change.
#[derive(Debug, Clone, Copy)]
pub struct Policy {
    /// Fixed width of a slot's padded instruction bytes.
    pub slot_width: usize,
    /// Leading instructions stripped from the subroutine.
    pub prologue_count: usize,
    /// Trailing instructions stripped from the subroutine.
    pub epilogue_count: usize,
    /// Offset of the cave from the host section's base address.
    pub cave_offset: usize,
    /// Bytes reserved for the cave inside the host section.
    pub cave_capacity: usize,
    /// Bytes at the subroutine entry that the redirect jump may overwrite.
    pub entry_budget: usize,
    /// Constant folded into every relative-branch displacement fixup,
    /// accounting for the fixed intra-cave layout of the slots.
    pub branch_adjust: u32,
    /// First decoy byte: opcode of a plausible multi-byte instruction.
    pub decoy_opcode: u8,
    /// Second decoy byte: a ModRM byte with a long memory operand, so a
    /// linear disassembler swallows the real bytes as its displacement.
    pub decoy_modrm: u8,
    /// Single-byte no-op used to pad short instructions to `slot_width`.
    pub filler: u8,
}

impl Policy {
    /// The slot template stores keys as 8-byte values and interprets the
    /// padded bytes as one 64-bit word, so the padded width is fixed at 8.
    pub open spec fn wf(self) -> bool {
        self.slot_width == KEY_WIDTH
    }

    /// Total length of one wrapped slot: short jump + decoy, padded
    /// bytes, short jump + decoy, key field.
    pub open spec fn spec_stride(self) -> int {
        2 + DECOY_WIDTH + self.slot_width + 2 + DECOY_WIDTH + KEY_WIDTH
    }

    /// Offset of the key field inside a wrapped slot.
    pub open spec fn spec_key_offset(self) -> int {
        2 + DECOY_WIDTH + self.slot_width + 2 + DECOY_WIDTH
    }

    pub fn stride(&self) -> (r: usize)
        requires
            self.wf(),
        ensures
            r == self.spec_stride(),
    {
        2 + DECOY_WIDTH + self.slot_width + 2 + DECOY_WIDTH + KEY_WIDTH
    }

    pub fn key_offset(&self) -> (r: usize)
        requires
            self.wf(),
        ensures
            r == self.spec_key_offset(),
    {
        2 + DECOY_WIDTH + self.slot_width + 2 + DECOY_WIDTH
    }
}

/// The reference policy: 8-byte slots, two prologue and two epilogue
/// instructions trimmed, `imul` decoy bytes, NOP filler, and a cave placed
/// 0x100 bytes into the host section.
pub open spec fn reference_policy() -> Policy {
    Policy {
        slot_width: 8,
        prologue_count: 2,
        epilogue_count: 2,
        cave_offset: 0x100,
        cave_capacity: 0x100,
        entry_budget: 8,
        branch_adjust: 0xFFB,
        decoy_opcode: 0x69,
        decoy_modrm: 0x84,
        filler: 0x90,
    }
}

impl Default for Policy {
    /// Returns the reference policy.
    fn default() -> (r: Policy)
        ensures
            r == reference_policy(),
            r.wf(),
    {
        Policy {
            slot_width: 8,
            prologue_count: 2,
            epilogue_count: 2,
            cave_offset: 0x100,
            cave_capacity: 0x100,
            entry_budget: 8,
            branch_adjust: 0xFFB,
            decoy_opcode: 0x69,
            decoy_modrm: 0x84,
            filler: 0x90,
        }
    }
}

} // verus!
