//! The cave allocator: places the cave at a fixed policy offset inside a
//! writable section and validates that the content fits the reserved
//! capacity.

use vstd::prelude::*;
use crate::config::Policy;
use crate::model::{Cave, PackError};

verus! {

/// Computes the cave's base address from the host section's base and the
/// policy's fixed offset. Fails with `CaveOverflow` exactly when the sum
/// leaves the address space.
pub fn allocate_cave(section_base: usize, policy: &Policy) -> (r: Result<usize, PackError>)
    ensures
        r is Ok <==> section_base + policy.cave_offset <= usize::MAX,
        r is Err ==> r == Err::<usize, PackError>(PackError::CaveOverflow),
        r matches Ok(base) ==> base == section_base + policy.cave_offset,
{
    match section_base.checked_add(policy.cave_offset) {
        Some(base) => Ok(base),
        None => Err(PackError::CaveOverflow),
    }
}

/// Validates the computed content against the cave's capacity and builds
/// the cave. Fails with `CaveOverflow` exactly when the content exceeds
/// the reserved capacity or runs past the address space, so that no
/// accepted cave can ever overrun its window.
pub fn fill_cave(base_address: usize, content: Vec<u8>, policy: &Policy) -> (r: Result<
    Cave,
    PackError,
>)
    ensures
        r is Ok <==> content@.len() <= policy.cave_capacity && base_address + content@.len()
            <= usize::MAX,
        r is Err ==> r == Err::<Cave, PackError>(PackError::CaveOverflow),
        r matches Ok(cave) ==> cave.base_address == base_address && cave.capacity
            == policy.cave_capacity && cave.content_bytes == content && cave.wf(),
{
    if content.len() > policy.cave_capacity {
        return Err(PackError::CaveOverflow);
    }
    if usize::MAX - base_address < content.len() {
        return Err(PackError::CaveOverflow);
    }
    Ok(Cave { base_address, capacity: policy.cave_capacity, content_bytes: content })
}

} // verus!
