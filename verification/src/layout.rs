//! The layout pass and the two-pass key backpatch. Laying out assigns
//! every slot its final address in the cave; the backpatch then rewrites
//! each slot's key field, located purely by the fixed per-slot stride,
//! with the delta between consecutive final addresses.

use vstd::prelude::*;
use vstd::arithmetic::div_mod::lemma_fundamental_div_mod_converse;
use vstd::wrapping::u64_specs;
use crate::config::{Policy, KEY_WIDTH, REAL_OFFSET};
use crate::endian::{u64_le, write_le_u64_at};
use crate::model::{PackError, Slot};

verus! {

/// The final address of the real bytes of slot `i`, once the slots are
/// laid out at the fixed stride from the cave base.
pub open spec fn real_address(cave_base: int, i: int, p: Policy) -> int {
    cave_base + i * p.spec_stride() + REAL_OFFSET
}

/// Whether byte position `j` of a laid-out buffer falls inside a slot's
/// key field.
pub open spec fn in_key_field(j: int, p: Policy) -> bool {
    p.spec_key_offset() <= j % p.spec_stride() < p.spec_key_offset() + KEY_WIDTH
}

/// The address-delta key of slot `i`: the wrapping difference between the
/// final address of slot `i + 1`'s real bytes and of slot `i`'s; the
/// final slot's key is zero.
pub open spec fn delta_key(addresses: Seq<usize>, i: int) -> u64 {
    if i < addresses.len() - 1 {
        u64_specs::wrapping_sub(addresses[i + 1] as u64, addresses[i] as u64)
    } else {
        0
    }
}

/// Lays the wrapped slots out as one contiguous buffer at the cave base,
/// returning the buffer together with the final address of every slot's
/// real bytes.
#[verifier::loop_isolation(false)]
pub fn lay_out(slots: &Vec<Slot>, cave_base: usize, policy: &Policy) -> (r: (Vec<u8>, Vec<usize>))
    requires
        policy.wf(),
        forall|i: int|
            0 <= i < slots@.len() ==> (#[trigger] slots@[i]).wrapped_bytes@.len()
                == policy.spec_stride(),
        cave_base + slots@.len() * policy.spec_stride() <= usize::MAX,
    ensures
        r.0@.len() == slots@.len() * policy.spec_stride(),
        forall|i: int|
            0 <= i < slots@.len() ==> r.0@.subrange(
                i * policy.spec_stride(),
                (i + 1) * policy.spec_stride(),
            ) == (#[trigger] slots@[i]).wrapped_bytes@,
        r.1@.len() == slots@.len(),
        forall|i: int|
            0 <= i < slots@.len() ==> (#[trigger] r.1@[i]) == real_address(
                cave_base as int,
                i,
                *policy,
            ),
{
    let n: usize = slots.len();
    let stride = policy.stride();
    proof {
        let s = policy.spec_stride();
        let a = slots@.len() as int;
        assert(s == 24);
        assert((a + 1) * s == a * s + s) by (nonlinear_arith);
        assert(forall|i: int| 0 <= i <= a ==> (#[trigger] (i * s)) == 24 * i)
            by (nonlinear_arith)
            requires s == 24;
    }
    let mut buf: Vec<u8> = Vec::new();
    let mut addresses: Vec<usize> = Vec::new();
    let mut i: usize = 0;
    while i < n
        invariant
            0 <= i <= n,
            buf@.len() == i * policy.spec_stride(),
            forall|q: int|
                0 <= q < i ==> buf@.subrange(
                    q * policy.spec_stride(),
                    (q + 1) * policy.spec_stride(),
                ) == (#[trigger] slots@[q]).wrapped_bytes@,
            addresses@.len() == i,
            forall|q: int|
                0 <= q < i ==> (#[trigger] addresses@[q]) == real_address(
                    cave_base as int,
                    q,
                    *policy,
                ),
        decreases n - i,
    {
        proof {
            let s = policy.spec_stride();
            assert((i + 1) * s == i * s + s) by (nonlinear_arith);
        }
        let ghost prefix = buf@;
        let w = &slots[i].wrapped_bytes;
        let mut j: usize = 0;
        while j < w.len()
            invariant
                0 <= j <= w@.len(),
                w@ == slots@[i as int].wrapped_bytes@,
                buf@ == prefix + w@.subrange(0, j as int),
            decreases w@.len() - j,
        {
            buf.push(w[j]);
            j = j + 1;
            assert(buf@ =~= prefix + w@.subrange(0, j as int));
        }
        assert(buf@ =~= prefix + slots@[i as int].wrapped_bytes@);
        addresses.push(cave_base + i * stride + REAL_OFFSET);
        i = i + 1;
        proof {
            let s = policy.spec_stride();
            assert forall|q: int| 0 <= q < i - 1 implies #[trigger] buf@.subrange(
                q * s,
                (q + 1) * s,
            ) =~= prefix.subrange(q * s, (q + 1) * s) by {
                assert((q + 1) * s <= (i - 1) * s) by (nonlinear_arith)
                    requires 0 <= q < i - 1 && s >= 0;
            }
            assert(buf@.subrange((i - 1) * s, i * s) =~= slots@[i - 1].wrapped_bytes@);
        }
    }
    (buf, addresses)
}

/// Overwrites the key field of every laid-out slot with its address-delta
/// key, locating each field by the fixed per-slot stride alone. Fails
/// with `KeyComputationError` exactly when the buffer or the address list
/// disagrees with that stride layout, and then patches nothing.
#[verifier::loop_isolation(false)]
pub fn backpatch_keys(
    buffer: Vec<u8>,
    cave_base: usize,
    addresses: &Vec<usize>,
    policy: &Policy,
) -> (r: Result<Vec<u8>, PackError>)
    requires
        policy.wf(),
    ensures
        r is Ok <==> buffer@.len() == addresses@.len() * policy.spec_stride() && (forall|i: int|
            0 <= i < addresses@.len() ==> (#[trigger] addresses@[i]) == real_address(
                cave_base as int,
                i,
                *policy,
            )),
        r is Err ==> r == Err::<Vec<u8>, PackError>(PackError::KeyComputationError),
        r matches Ok(out) ==> {
            &&& out@.len() == buffer@.len()
            &&& forall|i: int|
                0 <= i < addresses@.len() ==> out@.subrange(
                    i * policy.spec_stride() + policy.spec_key_offset(),
                    i * policy.spec_stride() + policy.spec_key_offset() + KEY_WIDTH,
                ) == u64_le(delta_key(addresses@, i))
            &&& forall|j: int|
                0 <= j < buffer@.len() && !in_key_field(j, *policy) ==> out@[j] == buffer@[j]
        },
{
    let n: usize = addresses.len();
    let stride = policy.stride();
    let key_off = policy.key_offset();
    proof {
        let s = policy.spec_stride();
        assert(s == 24);
        assert(forall|i: int| 0 <= i <= n ==> (#[trigger] (i * s)) == 24 * i)
            by (nonlinear_arith)
            requires s == 24;
    }
    if buffer.len() / stride != n || buffer.len() % stride != 0 {
        return Err(PackError::KeyComputationError);
    }
    let mut i: usize = 0;
    while i < n
        invariant
            0 <= i <= n,
            buffer@.len() == n * policy.spec_stride(),
            forall|q: int|
                0 <= q < i ==> (#[trigger] addresses@[q]) == real_address(
                    cave_base as int,
                    q,
                    *policy,
                ),
        decreases n - i,
    {
        let expected: u128 = cave_base as u128 + (i as u128) * (stride as u128)
            + REAL_OFFSET as u128;
        if addresses[i] as u128 != expected {
            return Err(PackError::KeyComputationError);
        }
        i = i + 1;
    }
    let mut out = buffer;
    let ghost orig = out@;
    let mut k: usize = 0;
    while k < n
        invariant
            0 <= k <= n,
            out@.len() == orig.len(),
            orig.len() == n * policy.spec_stride(),
            forall|q: int|
                0 <= q < k ==> out@.subrange(
                    q * policy.spec_stride() + policy.spec_key_offset(),
                    q * policy.spec_stride() + policy.spec_key_offset() + KEY_WIDTH,
                ) == u64_le(delta_key(addresses@, q)),
            forall|j: int|
                0 <= j < orig.len() && (j / policy.spec_stride() >= k || !in_key_field(j, *policy))
                    ==> out@[j] == orig[j],
        decreases n - k,
    {
        let key: u64 = if k + 1 < n {
            (addresses[k + 1] as u64).wrapping_sub(addresses[k] as u64)
        } else {
            0
        };
        let pos: usize = k * stride + key_off;
        let ghost before = out@;
        proof {
            assert((k + 1) * policy.spec_stride() <= n * policy.spec_stride()) by (nonlinear_arith)
                requires k < n && policy.spec_stride() >= 0;
        }
        write_le_u64_at(&mut out, pos, key);
        k = k + 1;
        proof {
            let s = policy.spec_stride();
            let ko = policy.spec_key_offset();
            assert(out@.subrange((k - 1) * s + ko, (k - 1) * s + ko + KEY_WIDTH) == u64_le(key));
            assert forall|j: int|
                0 <= j < orig.len() && (j / s >= k || !in_key_field(j, *policy)) implies out@[j]
                == orig[j] by {
                if pos <= j < pos + KEY_WIDTH {
                    lemma_fundamental_div_mod_converse(j, s, k - 1, j - (k - 1) * s);
                } else {
                    assert(out@[j] == before[j]);
                }
            }
            assert forall|q: int|
                0 <= q < k implies #[trigger] out@.subrange(q * s + ko, q * s + ko + KEY_WIDTH)
                == u64_le(delta_key(addresses@, q)) by {
                if q < k - 1 {
                    assert forall|t: int| 0 <= t < KEY_WIDTH implies #[trigger] out@[q * s + ko
                        + t] == before[q * s + ko + t] by {
                        assert(q * s + ko + t < (k - 1) * s + ko);
                    }
                    assert(out@.subrange(q * s + ko, q * s + ko + KEY_WIDTH) =~= before.subrange(
                        q * s + ko,
                        q * s + ko + KEY_WIDTH,
                    ));
                } else {
                    assert(key == delta_key(addresses@, q));
                }
            }
        }
    }
    Ok(out)
}

} // verus!
