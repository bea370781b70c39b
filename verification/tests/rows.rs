//! The CFI virtual machine: rows, halting, the state stack, and its fatal
//! conditions.

use unwinding::cfi::{CfaRule, RegisterRule};
use unwinding::entry::{Cie, Fde};
use unwinding::vm::compute_row;

fn test_cie() -> Cie {
    Cie {
        code_align: 1,
        data_align: -8,
        ra_register: 1,
        signal_frame: false,
        has_personality: false,
        instructions: Vec::new(),
    }
}

fn test_fde(instructions: Vec<u8>) -> Fde {
    Fde { cie_index: 0, initial_location: 0x1000, address_range: 0x100, lsda: 0, instructions }
}

#[test]
fn row_before_and_after_an_advance() {
    // def_cfa r3+16; offset ra at cfa-8; advance_loc 1; def_cfa_offset 32
    let fde = test_fde(vec![0x0c, 0x03, 0x10, 0x81, 0x01, 0x41, 0x0e, 0x20]);
    let cie = test_cie();
    let row = compute_row(&cie, &fde, 0x1000).unwrap();
    assert_eq!(row.cfa, CfaRule::RegisterOffset(3, 16));
    assert_eq!(row.rules[1], RegisterRule::Offset(-8));
    assert_eq!(row.start, 0x1000);
    assert_eq!(row.end, 0x1001);
    let row = compute_row(&cie, &fde, 0x1001).unwrap();
    assert_eq!(row.cfa, CfaRule::RegisterOffset(3, 32));
    assert_eq!(row.start, 0x1001);
    assert_eq!(row.end, 0x1100);
}

#[test]
fn factored_offsets_apply_the_data_alignment() {
    // offset_extended r5, 3  =>  stored at cfa + 3 * (-8)
    let fde = test_fde(vec![0x0c, 0x03, 0x10, 0x05, 0x05, 0x03]);
    let row = compute_row(&test_cie(), &fde, 0x1000).unwrap();
    assert_eq!(row.rules[5], RegisterRule::Offset(-24));
}

#[test]
fn remember_and_restore_state() {
    // def_cfa r3+16; remember; def_cfa_offset 32; restore_state
    let fde = test_fde(vec![0x0c, 0x03, 0x10, 0x0a, 0x0e, 0x20, 0x0b]);
    let row = compute_row(&test_cie(), &fde, 0x1000).unwrap();
    assert_eq!(row.cfa, CfaRule::RegisterOffset(3, 16));
}

#[test]
fn restore_state_on_empty_stack_is_fatal() {
    let fde = test_fde(vec![0x0c, 0x03, 0x10, 0x0b]);
    assert!(compute_row(&test_cie(), &fde, 0x1000).is_none());
}

#[test]
fn missing_cfa_definition_is_fatal() {
    let fde = test_fde(vec![0x81, 0x01]);
    assert!(compute_row(&test_cie(), &fde, 0x1000).is_none());
}

#[test]
fn unknown_instruction_is_fatal() {
    let fde = test_fde(vec![0x0c, 0x03, 0x10, 0x1f]);
    assert!(compute_row(&test_cie(), &fde, 0x1000).is_none());
}

#[test]
fn args_size_lands_in_the_row() {
    let fde = test_fde(vec![0x0c, 0x03, 0x10, 0x2e, 0x20]);
    let row = compute_row(&test_cie(), &fde, 0x1000).unwrap();
    assert_eq!(row.args_size, 0x20);
}

#[test]
fn cie_initial_instructions_feed_restore() {
    // The CIE establishes offset ra at cfa-8; the FDE overrides it with
    // same_value, then restores the CIE rule.
    let mut cie = test_cie();
    cie.instructions = vec![0x0c, 0x03, 0x10, 0x81, 0x01];
    // same_value r1; advance 1; restore r1
    let fde = test_fde(vec![0x08, 0x01, 0x41, 0xc1]);
    let early = compute_row(&cie, &fde, 0x1000).unwrap();
    assert_eq!(early.rules[1], RegisterRule::SameValue);
    let late = compute_row(&cie, &fde, 0x1001).unwrap();
    assert_eq!(late.rules[1], RegisterRule::Offset(-8));
}
