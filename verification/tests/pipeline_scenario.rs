use packer::codec::decode_stream;
use packer::config::Policy;
use packer::model::{PackError, Subroutine};
use packer::pipeline::{pack_image, plan_patch, KeyPolicy, PayloadStrategy};

/// A 0x200-byte image holding a six-instruction subroutine at 0x40:
/// push rbp; mov rbp, rsp; mov eax, 42; xor ecx, ecx; pop rbp; ret.
fn sample() -> (Vec<u8>, Subroutine) {
    let mut image: Vec<u8> = vec![0u8; 0x200];
    let code: [u8; 13] = [
        0x55, 0x48, 0x89, 0xE5, 0xB8, 0x2A, 0x00, 0x00, 0x00, 0x31, 0xC9, 0x5D, 0xC3,
    ];
    image[0x40..0x4D].copy_from_slice(&code);
    let sub = Subroutine {
        name: String::from("target"),
        start_address: 0x40,
        end_address: 0x4D,
        byte_length: 13,
    };
    (image, sub)
}

fn policy() -> Policy {
    Policy::default()
}

#[test]
fn decode_stream_tiles_the_subroutine() {
    let (image, sub) = sample();
    let instrs = decode_stream(&image, sub.start_address, sub.end_address);
    let got: Vec<(usize, usize)> = instrs.iter().map(|i| (i.address, i.byte_length)).collect();
    assert_eq!(got, vec![(0x40, 1), (0x41, 3), (0x44, 5), (0x49, 2), (0x4B, 1), (0x4C, 1)]);
    assert_eq!(instrs[2].raw_bytes, vec![0xB8, 0x2A, 0x00, 0x00, 0x00]);
    assert!(instrs.iter().all(|i| !i.is_relative_branch));
}

#[test]
fn scenario_two_payload_slots_and_terminal() {
    let (image, sub) = sample();
    let instrs = decode_stream(&image, sub.start_address, sub.end_address);
    let plan = plan_patch(&sub, instrs, 0, &policy(), PayloadStrategy::ObfuscateOriginal,
        KeyPolicy::Static)
        .unwrap();

    assert_eq!(plan.entry_address, 0x40);
    assert_eq!(plan.cave.base_address, 0x100);
    assert_eq!(plan.entry_redirect_bytes, vec![0xE9, 0xBB, 0x00, 0x00, 0x00]);

    // Two payload slots plus the terminal slot, 24 bytes each.
    let content = &plan.cave.content_bytes;
    assert_eq!(content.len(), 72);

    let padded0: [u8; 8] = [0xB8, 0x2A, 0x00, 0x00, 0x00, 0x90, 0x90, 0x90];
    let padded1: [u8; 8] = [0x31, 0xC9, 0x90, 0x90, 0x90, 0x90, 0x90, 0x90];
    // Terminal slot: jmp rel32 from 0x134 back to the resumption address
    // 0x4B (the fifth instruction, first of the stripped epilogue).
    let disp = (0x4Bi64 - (0x134i64 + 5)) as i32;
    let d = disp.to_le_bytes();
    let padded2: [u8; 8] = [0xE9, d[0], d[1], d[2], d[3], 0x90, 0x90, 0x90];

    let v0 = u64::from_le_bytes(padded0);
    let v1 = u64::from_le_bytes(padded1);
    let v2 = u64::from_le_bytes(padded2);
    let keys: [u64; 3] = [v1.wrapping_sub(v0), v2.wrapping_sub(v1), 0];

    for (i, padded) in [padded0, padded1, padded2].iter().enumerate() {
        let s = &content[i * 24..(i + 1) * 24];
        assert_eq!(&s[0..4], &[0xEB, 0x02, 0x69, 0x84]);
        assert_eq!(&s[4..12], padded);
        assert_eq!(&s[12..16], &[0xEB, 0x0A, 0x69, 0x84]);
        assert_eq!(&s[16..24], &keys[i].to_le_bytes());
    }
}

#[test]
fn packed_image_identical_outside_patched_ranges() {
    let (image, sub) = sample();
    let instrs = decode_stream(&image, sub.start_address, sub.end_address);
    let (out, plan) = pack_image(&image, &sub, instrs, 0, &policy(),
        PayloadStrategy::ObfuscateOriginal, KeyPolicy::Static)
        .unwrap();
    assert_eq!(out.len(), image.len());
    let entry = plan.entry_address;
    let jlen = plan.entry_redirect_bytes.len();
    let base = plan.cave.base_address;
    let clen = plan.cave.content_bytes.len();
    for j in 0..out.len() {
        if (base..base + clen).contains(&j) {
            assert_eq!(out[j], plan.cave.content_bytes[j - base]);
        } else if (entry..entry + jlen).contains(&j) {
            assert_eq!(out[j], plan.entry_redirect_bytes[j - entry]);
        } else {
            assert_eq!(out[j], image[j]);
        }
    }
}

#[test]
fn address_delta_keys_hold_the_stride() {
    let (image, sub) = sample();
    let instrs = decode_stream(&image, sub.start_address, sub.end_address);
    let plan = plan_patch(&sub, instrs, 0, &policy(), PayloadStrategy::ObfuscateOriginal,
        KeyPolicy::AddressDelta)
        .unwrap();
    let content = &plan.cave.content_bytes;
    assert_eq!(content.len(), 72);
    for i in 0..3 {
        let field = &content[i * 24 + 16..i * 24 + 24];
        let expected: u64 = if i < 2 { 24 } else { 0 };
        assert_eq!(field, &expected.to_le_bytes());
    }
}

#[test]
fn replacement_payload_fills_cave_verbatim() {
    let (image, sub) = sample();
    let instrs = decode_stream(&image, sub.start_address, sub.end_address);
    let payload: Vec<u8> = vec![0xCC, 0xCC, 0xCC, 0xCC];
    let plan = plan_patch(&sub, instrs, 0, &policy(),
        PayloadStrategy::ReplaceWith(payload.clone()), KeyPolicy::Static)
        .unwrap();
    assert_eq!(plan.cave.content_bytes, payload);
    assert_eq!(plan.entry_redirect_bytes, vec![0xE9, 0xBB, 0x00, 0x00, 0x00]);
}

#[test]
fn malformed_function_when_too_few_instructions() {
    let (image, _) = sample();
    let sub = Subroutine {
        name: String::from("tiny"),
        start_address: 0x4B,
        end_address: 0x4D,
        byte_length: 2,
    };
    let instrs = decode_stream(&image, sub.start_address, sub.end_address);
    assert!(matches!(
        plan_patch(&sub, instrs, 0, &policy(), PayloadStrategy::ObfuscateOriginal,
            KeyPolicy::Static),
        Err(PackError::MalformedFunction)
    ));
}

#[test]
fn cave_overflow_when_capacity_too_small() {
    let (image, sub) = sample();
    let instrs = decode_stream(&image, sub.start_address, sub.end_address);
    let mut p = policy();
    p.cave_capacity = 71;
    assert!(matches!(
        plan_patch(&sub, instrs, 0, &p, PayloadStrategy::ObfuscateOriginal, KeyPolicy::Static),
        Err(PackError::CaveOverflow)
    ));
}

#[test]
fn patch_overflow_when_entry_budget_too_small() {
    let (image, sub) = sample();
    let instrs = decode_stream(&image, sub.start_address, sub.end_address);
    let mut p = policy();
    p.entry_budget = 3;
    assert!(matches!(
        plan_patch(&sub, instrs, 0, &p, PayloadStrategy::ObfuscateOriginal, KeyPolicy::Static),
        Err(PackError::PatchOverflow)
    ));
}

#[test]
fn slot_overflow_when_an_instruction_exceeds_the_width() {
    // movabs rax, imm64 (ten bytes) sits in the payload window.
    let mut image: Vec<u8> = vec![0u8; 0x200];
    let code: [u8; 18] = [
        0x55, 0x48, 0x89, 0xE5, 0x48, 0xB8, 1, 2, 3, 4, 5, 6, 7, 8, 0x31, 0xC9, 0x5D, 0xC3,
    ];
    image[0x40..0x52].copy_from_slice(&code);
    let sub = Subroutine {
        name: String::from("wide"),
        start_address: 0x40,
        end_address: 0x52,
        byte_length: 18,
    };
    let instrs = decode_stream(&image, sub.start_address, sub.end_address);
    assert!(matches!(
        plan_patch(&sub, instrs, 0, &policy(), PayloadStrategy::ObfuscateOriginal,
            KeyPolicy::Static),
        Err(PackError::SlotOverflow)
    ));
}

#[test]
fn relative_call_in_payload_gets_fixed_up() {
    // The third instruction is call rel32; its displacement must be
    // rewritten for the move into the cave.
    let mut image: Vec<u8> = vec![0u8; 0x200];
    let code: [u8; 13] = [
        0x55, 0x48, 0x89, 0xE5, 0xE8, 0x10, 0x00, 0x00, 0x00, 0x31, 0xC9, 0x5D, 0xC3,
    ];
    image[0x40..0x4D].copy_from_slice(&code);
    let sub = Subroutine {
        name: String::from("caller"),
        start_address: 0x40,
        end_address: 0x4D,
        byte_length: 13,
    };
    let instrs = decode_stream(&image, sub.start_address, sub.end_address);
    assert!(instrs[2].is_relative_branch);
    let p = policy();
    let plan = plan_patch(&sub, instrs, 0, &p, PayloadStrategy::ObfuscateOriginal,
        KeyPolicy::Static)
        .unwrap();
    let content = &plan.cave.content_bytes;
    let delta = 0x100u32 - 0x40;
    let fixed = 0x10u32.wrapping_sub(delta).wrapping_sub(p.branch_adjust);
    let d = fixed.to_le_bytes();
    assert_eq!(&content[4..12], &[0xE8, d[0], d[1], d[2], d[3], 0x90, 0x90, 0x90]);
}

#[test]
fn encoding_error_when_cave_is_unreachable() {
    // The redirect jump cannot span more than a signed 32-bit displacement.
    let (image, _) = sample();
    let sub = Subroutine {
        name: String::from("far"),
        start_address: 0x40,
        end_address: 0x4D,
        byte_length: 13,
    };
    let instrs = decode_stream(&image, sub.start_address, sub.end_address);
    let mut p = policy();
    p.cave_capacity = usize::MAX;
    assert!(matches!(
        plan_patch(&sub, instrs, 0x1_0000_0000, &p, PayloadStrategy::ObfuscateOriginal,
            KeyPolicy::Static),
        Err(PackError::EncodingError)
    ));
}
