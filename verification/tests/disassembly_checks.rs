use iced_x86::{BlockEncoder, BlockEncoderOptions, Decoder, DecoderOptions, InstructionBlock,
    OpKind};
use packer::codec::decode_stream;
use packer::config::Policy;
use packer::model::Subroutine;
use packer::pipeline::{pack_image, KeyPolicy, PayloadStrategy};
use packer::slots::wrap_slot;

fn sample() -> (Vec<u8>, Subroutine) {
    let mut image: Vec<u8> = vec![0u8; 0x200];
    let code: [u8; 13] = [
        0x55, 0x48, 0x89, 0xE5, 0xB8, 0x2A, 0x00, 0x00, 0x00, 0x31, 0xC9, 0x5D, 0xC3,
    ];
    image[0x40..0x4D].copy_from_slice(&code);
    let sub = Subroutine {
        name: String::from("target"),
        start_address: 0x40,
        end_address: 0x4D,
        byte_length: 13,
    };
    (image, sub)
}

fn packed() -> (Vec<u8>, usize, usize) {
    let (image, sub) = sample();
    let instrs = decode_stream(&image, sub.start_address, sub.end_address);
    let (out, plan) = pack_image(&image, &sub, instrs, 0, &Policy::default(),
        PayloadStrategy::ObfuscateOriginal, KeyPolicy::Static)
        .unwrap();
    (out, plan.cave.base_address, plan.cave.content_bytes.len())
}

#[test]
fn redirect_decodes_to_one_jump_at_cave_base() {
    let (out, cave_base, _) = packed();
    let mut decoder = Decoder::with_ip(64, &out[0x40..0x45], 0x40, DecoderOptions::NONE);
    let instr = decoder.decode();
    assert_eq!(instr.len(), 5);
    assert_eq!(instr.op0_kind(), OpKind::NearBranch64);
    assert_eq!(instr.near_branch_target(), cave_base as u64);
    assert!(!decoder.can_decode());
}

#[test]
fn linear_disassembly_misses_the_real_instruction() {
    let (out, cave_base, clen) = packed();
    let slot = &out[cave_base..cave_base + 24];
    assert!(clen >= 24);
    let mut decoder = Decoder::with_ip(64, slot, cave_base as u64, DecoderOptions::NONE);
    let starts: Vec<usize> = decoder
        .iter()
        .map(|i| (i.ip() as usize) - cave_base)
        .collect();
    // The slot boundary decodes as the 2-byte short jump, then the decoy
    // opcode at offset 2 swallows the real bytes at offset 4: no
    // instruction ever starts there.
    assert_eq!(starts[0], 0);
    assert_eq!(starts[1], 2);
    assert!(starts[2] > 4 + 8);
    assert!(!starts.contains(&4));
}

#[test]
fn skipping_the_decoys_lands_on_the_real_instruction() {
    // Following the short jumps instead: the real bytes at offset 4
    // decode back to the original payload instruction.
    let (out, cave_base, _) = packed();
    let real = &out[cave_base + 4..cave_base + 9];
    assert_eq!(real, &[0xB8, 0x2A, 0x00, 0x00, 0x00]);
}

#[test]
fn codec_roundtrip_for_unmodified_instruction() {
    // Decode one non-branch instruction and re-encode it at the same
    // address: the bytes come back identical.
    let bytes: [u8; 5] = [0xB8, 0x2A, 0x00, 0x00, 0x00];
    let mut decoder = Decoder::with_ip(64, &bytes, 0x44, DecoderOptions::NONE);
    let instr = decoder.decode();
    let block = InstructionBlock::new(std::slice::from_ref(&instr), 0x44);
    let encoded = BlockEncoder::encode(64, block, BlockEncoderOptions::NONE).unwrap();
    assert_eq!(encoded.code_buffer, bytes.to_vec());
}

#[test]
fn slot_roundtrip_for_unmodified_instruction() {
    // The slot machinery itself also preserves the bytes verbatim: the
    // wrapped slot carries the original encoding at the real offset.
    let padded: Vec<u8> = vec![0xB8, 0x2A, 0x00, 0x00, 0x00, 0x90, 0x90, 0x90];
    let wrapped = wrap_slot(&padded, 0x1234, &Policy::default());
    let mut decoder = Decoder::with_ip(64, &wrapped[4..9], 0x44, DecoderOptions::NONE);
    let instr = decoder.decode();
    assert_eq!(instr.len(), 5);
    let block = InstructionBlock::new(std::slice::from_ref(&instr), 0x44);
    let encoded = BlockEncoder::encode(64, block, BlockEncoderOptions::NONE).unwrap();
    assert_eq!(encoded.code_buffer, padded[..5].to_vec());
}

#[test]
fn terminal_slot_jumps_to_resumption_address() {
    // The terminal slot's real instruction is an unconditional jump whose
    // resolved target is the fifth instruction of the original function.
    let (out, cave_base, clen) = packed();
    assert_eq!(clen, 72);
    let term = cave_base + 2 * 24 + 4;
    let mut decoder = Decoder::with_ip(64, &out[term..term + 5], term as u64,
        DecoderOptions::NONE);
    let instr = decoder.decode();
    assert_eq!(instr.len(), 5);
    assert_eq!(instr.op0_kind(), OpKind::NearBranch64);
    assert_eq!(instr.near_branch_target(), 0x4B);
}

#[test]
fn decode_stream_agrees_with_the_decoder() {
    let (image, sub) = sample();
    let instrs = decode_stream(&image, sub.start_address, sub.end_address);
    let mut decoder = Decoder::with_ip(64, &image[0x40..0x4D], 0x40, DecoderOptions::NONE);
    let reference: Vec<(usize, usize)> = decoder
        .iter()
        .map(|i| (i.ip() as usize, i.len()))
        .collect();
    let got: Vec<(usize, usize)> = instrs.iter().map(|i| (i.address, i.byte_length)).collect();
    assert_eq!(got, reference);
}
