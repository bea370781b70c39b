//! Byte-level decoding: LEB128, fixed-width reads, call-frame
//! instructions, and the expression evaluator.

use unwinding::arch::Context;
use unwinding::bytes::{read_u16_le, read_u32_le, read_u64_le};
use unwinding::cfi::{decode_instruction, CfiInstruction};
use unwinding::expr::eval_expr;
use unwinding::leb::{read_sleb128, read_uleb128};
use unwinding::encoding::read_encoded_pointer;
use unwinding::section::{entry_body, is_end_marker};
use unwinding::mem::Memory;

#[test]
fn uleb128_multi_byte_value() {
    // The classic three-byte example: 624485.
    let data = [0xe5u8, 0x8e, 0x26];
    assert_eq!(read_uleb128(&data, 0), Some((624485u64, 3usize)));
}

#[test]
fn uleb128_single_byte_and_truncated() {
    let data = [0x7fu8];
    assert_eq!(read_uleb128(&data, 0), Some((127u64, 1usize)));
    let cut = [0x80u8];
    assert_eq!(read_uleb128(&cut, 0), None);
    assert_eq!(read_uleb128(&data, 1), None);
}

#[test]
fn uleb128_overflow_is_rejected() {
    // Eleven continuation bytes push the value past 64 bits.
    let data = [0xffu8, 0xff, 0xff, 0xff, 0xff, 0xff, 0xff, 0xff, 0xff, 0xff, 0x01];
    assert_eq!(read_uleb128(&data, 0), None);
}

#[test]
fn sleb128_negative_value() {
    // The classic encoding of -624485.
    let data = [0x9bu8, 0xf1, 0x59];
    assert_eq!(read_sleb128(&data, 0), Some((-624485i64, 3usize)));
    let minus_two = [0x7eu8];
    assert_eq!(read_sleb128(&minus_two, 0), Some((-2i64, 1usize)));
}

#[test]
fn fixed_width_little_endian_reads() {
    let data = [0x01u8, 0x02, 0x03, 0x04, 0x05, 0x06, 0x07, 0x08];
    assert_eq!(read_u16_le(&data, 0), Some((0x0201u64, 2usize)));
    assert_eq!(read_u32_le(&data, 0), Some((0x04030201u64, 4usize)));
    assert_eq!(read_u64_le(&data, 0), Some((0x0807060504030201u64, 8usize)));
    assert_eq!(read_u64_le(&data, 1), None);
}

#[test]
fn decode_def_cfa_and_offset() {
    // def_cfa r3, 16
    let data = [0x0cu8, 0x03, 0x10];
    assert_eq!(
        decode_instruction(&data, 0, false),
        Some((CfiInstruction::DefCfa(3, 16), 3usize))
    );
    // compact offset: register 1, factored offset 2
    let data = [0x81u8, 0x02];
    assert_eq!(
        decode_instruction(&data, 0, false),
        Some((CfiInstruction::Offset(1, 2), 2usize))
    );
}

#[test]
fn decode_advance_and_restore_forms() {
    // compact advance_loc 5
    let data = [0x45u8];
    assert_eq!(
        decode_instruction(&data, 0, false),
        Some((CfiInstruction::AdvanceLoc(5), 1usize))
    );
    // advance_loc2 0x0102
    let data = [0x03u8, 0x02, 0x01];
    assert_eq!(
        decode_instruction(&data, 0, false),
        Some((CfiInstruction::AdvanceLoc(0x0102), 3usize))
    );
    // compact restore of register 4
    let data = [0xc4u8];
    assert_eq!(
        decode_instruction(&data, 0, false),
        Some((CfiInstruction::Restore(4), 1usize))
    );
}

#[test]
fn decode_unknown_opcode_is_fatal() {
    let data = [0x3fu8];
    assert_eq!(decode_instruction(&data, 0, false), None);
    // Truncated operand.
    let data = [0x0cu8, 0x03];
    assert_eq!(decode_instruction(&data, 0, false), None);
}

#[test]
fn decode_gnu_args_size() {
    let data = [0x2eu8, 0x20];
    assert_eq!(
        decode_instruction(&data, 0, false),
        Some((CfiInstruction::ArgsSize(0x20), 2usize))
    );
}

fn empty_env() -> (Context, Memory) {
    (Context::new(), Memory { base: 0x1000, bytes: vec![0u8; 64] })
}

#[test]
fn expression_literals_and_arithmetic() {
    let (ctx, mem) = empty_env();
    // lit3 lit5 plus => 8
    let data = [0x33u8, 0x35, 0x22];
    assert_eq!(eval_expr(&data, &ctx, &mem, None), Some(8));
    // lit5 lit3 minus => 2
    let data = [0x35u8, 0x33, 0x1c];
    assert_eq!(eval_expr(&data, &ctx, &mem, None), Some(2));
}

#[test]
fn expression_breg_and_deref() {
    let (mut ctx, mut mem) = empty_env();
    ctx.set_reg(12, 0x1008);
    // Word at address 0x1008.
    mem.bytes[8] = 0x2a;
    // breg12 + 0  => 0x1008 ; deref => 42
    let data = [0x7cu8, 0x00, 0x06];
    assert_eq!(eval_expr(&data, &ctx, &mem, None), Some(42));
    // Dereferencing outside the image is fatal.
    let data = [0x7cu8, 0x3f, 0x06];
    assert_eq!(eval_expr(&data, &ctx, &mem, None), None);
}

#[test]
fn expression_underflow_and_unknown_op_are_fatal() {
    let (ctx, mem) = empty_env();
    // plus on an empty stack
    let data = [0x22u8];
    assert_eq!(eval_expr(&data, &ctx, &mem, None), None);
    // unknown operator
    let data = [0x07u8];
    assert_eq!(eval_expr(&data, &ctx, &mem, None), None);
    // empty expression leaves nothing on the stack
    let data: [u8; 0] = [];
    assert_eq!(eval_expr(&data, &ctx, &mem, None), None);
}

#[test]
fn expression_seed_is_preloaded() {
    let (ctx, mem) = empty_env();
    // plus_uconst 7 on the seeded value
    let data = [0x23u8, 0x07];
    assert_eq!(eval_expr(&data, &ctx, &mem, Some(100)), Some(107));
}

#[test]
fn encoded_pointer_formats() {
    let mem = Memory { base: 0x5000, bytes: vec![0u8; 16] };
    // Absolute machine word.
    let data = [0x10u8, 0x20, 0, 0, 0, 0, 0, 0];
    assert_eq!(
        read_encoded_pointer(&data, 0, 0x00, 0, 0, 0, &mem),
        Some((0x2010u64, 8usize))
    );
    // PC-relative sdata4: -4 from the encoded bytes' own address.
    let data = [0xfcu8, 0xff, 0xff, 0xff];
    assert_eq!(
        read_encoded_pointer(&data, 0, 0x1b, 0x9000, 0, 0, &mem),
        Some((0x8ffcu64, 4usize))
    );
    // Text-relative uleb128.
    let data = [0x08u8];
    assert_eq!(
        read_encoded_pointer(&data, 0, 0x21, 0, 0x7000, 0, &mem),
        Some((0x7008u64, 1usize))
    );
    // The omit encoding carries no value.
    assert_eq!(read_encoded_pointer(&data, 0, 0xff, 0, 0, 0, &mem), None);
}

#[test]
fn encoded_pointer_indirect_reads_memory() {
    let mut bytes = vec![0u8; 16];
    bytes[0] = 0x77;
    let mem = Memory { base: 0x5000, bytes };
    // Indirect absolute pointer: the word at 0x5000 is the value.
    let data = [0x00u8, 0x50, 0, 0, 0, 0, 0, 0];
    assert_eq!(
        read_encoded_pointer(&data, 0, 0x80, 0, 0, 0, &mem),
        Some((0x77u64, 8usize))
    );
    // An indirect read outside the image is fatal.
    let data = [0x00u8, 0x60, 0, 0, 0, 0, 0, 0];
    assert_eq!(read_encoded_pointer(&data, 0, 0x80, 0, 0, 0, &mem), None);
}

#[test]
fn section_framing_and_end_marker() {
    // A four-byte record body after its length header.
    let data = [0x04u8, 0, 0, 0, 0xaa, 0xbb, 0xcc, 0xdd];
    assert_eq!(entry_body(&data, 0), Some((4usize, 8usize)));
    assert!(!is_end_marker(&data, 0));
    // The zero length ends the table.
    let end = [0u8, 0, 0, 0];
    assert!(is_end_marker(&end, 0));
    assert_eq!(entry_body(&end, 0), None);
    // A length that runs past the section is refused.
    let cut = [0x09u8, 0, 0, 0, 1, 2, 3, 4];
    assert_eq!(entry_body(&cut, 0), None);
}
