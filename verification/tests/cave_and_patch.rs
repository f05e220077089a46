use packer::branch::encode_jump;
use packer::cave::{allocate_cave, fill_cave};
use packer::config::Policy;
use packer::model::{Cave, PackError, PatchPlan};
use packer::patch::apply_plan;

fn policy() -> Policy {
    Policy::default()
}

#[test]
fn cave_base_is_section_base_plus_offset() {
    assert_eq!(allocate_cave(0x3000, &policy()), Ok(0x3100));
}

#[test]
fn cave_allocation_fails_past_address_space() {
    assert_eq!(allocate_cave(usize::MAX, &policy()), Err(PackError::CaveOverflow));
}

#[test]
fn content_within_capacity_is_accepted() {
    let cave = fill_cave(0x100, vec![0xAB; 0x100], &policy()).unwrap();
    assert_eq!(cave.base_address, 0x100);
    assert_eq!(cave.capacity, 0x100);
    assert_eq!(cave.content_bytes.len(), 0x100);
}

#[test]
fn content_beyond_capacity_is_rejected() {
    assert!(matches!(
        fill_cave(0x100, vec![0xAB; 0x101], &policy()),
        Err(PackError::CaveOverflow)
    ));
}

#[test]
fn encode_jump_forward() {
    // Five-byte near jump: displacement counts from the end of the jump.
    assert_eq!(encode_jump(0x40, 0x100), Ok(vec![0xE9, 0xBB, 0x00, 0x00, 0x00]));
}

#[test]
fn encode_jump_backward() {
    let d = (0x40i64 - 0x105i64) as i32;
    let b = d.to_le_bytes();
    assert_eq!(encode_jump(0x100, 0x40), Ok(vec![0xE9, b[0], b[1], b[2], b[3]]));
}

#[test]
fn encode_jump_out_of_range() {
    assert_eq!(encode_jump(0, 0x8000_0005), Err(PackError::EncodingError));
}

#[test]
fn apply_changes_exactly_two_ranges() {
    let image: Vec<u8> = (0..=255u8).cycle().take(0x200).collect();
    let plan = PatchPlan {
        entry_redirect_bytes: vec![0xE9, 0xBB, 0x00, 0x00, 0x00],
        entry_address: 0x40,
        cave: Cave { base_address: 0x100, capacity: 0x100, content_bytes: vec![0x77; 24] },
    };
    let out = apply_plan(&image, &plan, &policy()).unwrap();
    assert_eq!(out.len(), image.len());
    for j in 0..image.len() {
        if (0x40..0x45).contains(&j) {
            assert_eq!(out[j], plan.entry_redirect_bytes[j - 0x40]);
        } else if (0x100..0x118).contains(&j) {
            assert_eq!(out[j], 0x77);
        } else {
            assert_eq!(out[j], image[j]);
        }
    }
}

#[test]
fn apply_rejects_redirect_beyond_entry_budget() {
    let image: Vec<u8> = vec![0; 0x200];
    let plan = PatchPlan {
        entry_redirect_bytes: vec![0x90; 9],
        entry_address: 0x40,
        cave: Cave { base_address: 0x100, capacity: 0x100, content_bytes: vec![] },
    };
    assert_eq!(apply_plan(&image, &plan, &policy()), Err(PackError::PatchOverflow));
}

#[test]
fn apply_rejects_cave_past_image_end() {
    let image: Vec<u8> = vec![0; 0x80];
    let plan = PatchPlan {
        entry_redirect_bytes: vec![0xE9, 0, 0, 0, 0],
        entry_address: 0x40,
        cave: Cave { base_address: 0x100, capacity: 0x100, content_bytes: vec![1, 2, 3] },
    };
    assert_eq!(apply_plan(&image, &plan, &policy()), Err(PackError::CaveOverflow));
}
