use packer::config::Policy;
use packer::layout::{backpatch_keys, lay_out};
use packer::model::{PackError, Slot};
use packer::slots::wrap_slot;

fn policy() -> Policy {
    Policy::default()
}

fn slot(index: usize, padded: Vec<u8>, key: u64) -> Slot {
    let wrapped = wrap_slot(&padded, key, &policy());
    Slot { index, source_instruction: None, padded_bytes: padded, wrapped_bytes: wrapped, key }
}

fn sample_slots() -> Vec<Slot> {
    vec![
        slot(0, vec![0x11; 8], 5),
        slot(1, vec![0x22; 8], 6),
        slot(2, vec![0x33; 8], 0),
    ]
}

#[test]
fn lay_out_concatenates_at_stride_and_assigns_addresses() {
    let slots = sample_slots();
    let (buf, addresses) = lay_out(&slots, 0x100, &policy());
    assert_eq!(buf.len(), 72);
    for (i, s) in slots.iter().enumerate() {
        assert_eq!(&buf[i * 24..(i + 1) * 24], &s.wrapped_bytes[..]);
    }
    assert_eq!(addresses, vec![0x104, 0x11C, 0x134]);
}

#[test]
fn backpatch_writes_address_delta_keys() {
    let slots = sample_slots();
    let (buf, addresses) = lay_out(&slots, 0x100, &policy());
    let out = backpatch_keys(buf.clone(), 0x100, &addresses, &policy()).unwrap();
    assert_eq!(out.len(), buf.len());
    for i in 0..3 {
        let field = &out[i * 24 + 16..i * 24 + 24];
        let expected: u64 = if i < 2 { 24 } else { 0 };
        assert_eq!(field, &expected.to_le_bytes());
    }
    for j in 0..out.len() {
        if j % 24 < 16 {
            assert_eq!(out[j], buf[j]);
        }
    }
}

#[test]
fn backpatch_rejects_stride_mismatch() {
    let slots = sample_slots();
    let (mut buf, addresses) = lay_out(&slots, 0x100, &policy());
    buf.pop();
    assert_eq!(
        backpatch_keys(buf, 0x100, &addresses, &policy()),
        Err(PackError::KeyComputationError)
    );
}

#[test]
fn backpatch_rejects_address_mismatch() {
    let slots = sample_slots();
    let (buf, mut addresses) = lay_out(&slots, 0x100, &policy());
    addresses[1] += 1;
    assert_eq!(
        backpatch_keys(buf, 0x100, &addresses, &policy()),
        Err(PackError::KeyComputationError)
    );
}
