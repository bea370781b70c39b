//! Byte-level CIE and FDE record parsing: versions, augmentation strings,
//! encoded addresses, and the fatal forms.

use unwinding::eh_frame::{parse_cie, parse_fde};
use unwinding::encoding::PE_OMIT;
use unwinding::mem::Memory;

fn no_mem() -> Memory {
    Memory { base: 0, bytes: Vec::new() }
}

/// A version-1 CIE with augmentation `zR`: code alignment 1, data
/// alignment -8, return-address register 1, FDE encoding pcrel|sdata4.
fn cie_bytes() -> Vec<u8> {
    vec![
        16, 0, 0, 0, // length
        0, 0, 0, 0, // id: a CIE
        1, // version
        0x7a, 0x52, 0, // "zR"
        0x01, // code alignment 1
        0x78, // data alignment -8
        0x01, // return-address register 1
        0x01, // augmentation data length
        0x1b, // FDE encoding: pcrel | sdata4
        0x0c, 0x03, 0x10, // def_cfa r3, 16
    ]
}

#[test]
fn parse_cie_with_fde_encoding() {
    let data = cie_bytes();
    let (rec, next) = parse_cie(&data, 0).unwrap();
    assert_eq!(next, 20);
    assert_eq!(rec.cie.code_align, 1);
    assert_eq!(rec.cie.data_align, -8);
    assert_eq!(rec.cie.ra_register, 1);
    assert!(!rec.cie.signal_frame);
    assert!(!rec.cie.has_personality);
    assert_eq!(rec.fde_encoding, 0x1b);
    assert_eq!(rec.lsda_encoding, PE_OMIT);
    assert_eq!(rec.cie.instructions, vec![0x0c, 0x03, 0x10]);
}

#[test]
fn parse_cie_signal_and_personality_augmentations() {
    // "zPRS": a personality pointer (absolute word), an FDE encoding, and
    // the signal-frame flag.
    let data = vec![
        24, 0, 0, 0, // length
        0, 0, 0, 0, // id
        1, // version
        0x7a, 0x50, 0x52, 0x53, 0, // "zPRS"
        0x01, // code alignment
        0x78, // data alignment -8
        0x01, // return-address register
        0x0a, // augmentation data length: enc + 8-byte pointer + enc
        0x00, // personality encoding: absolute word
        0xee, 0xff, 0, 0, 0, 0, 0, 0, // personality pointer
        0x1b, // FDE encoding
    ];
    let (rec, next) = parse_cie(&data, 0).unwrap();
    assert_eq!(next, 28);
    assert!(rec.cie.signal_frame);
    assert!(rec.cie.has_personality);
    assert_eq!(rec.fde_encoding, 0x1b);
    assert!(rec.cie.instructions.is_empty());
}

#[test]
fn parse_cie_fatal_forms() {
    // Augmentation "R" without the leading "z" is fatal.
    let mut data = cie_bytes();
    data[9] = 0x52;
    data[10] = 0;
    assert!(parse_cie(&data, 0).is_none());
    // An unknown augmentation character after "z" is fatal.
    let mut data = cie_bytes();
    data[10] = 0x58;
    assert!(parse_cie(&data, 0).is_none());
    // A zero code-alignment factor is fatal.
    let mut data = cie_bytes();
    data[12] = 0;
    assert!(parse_cie(&data, 0).is_none());
    // An FDE record is not a CIE.
    let mut data = cie_bytes();
    data[4] = 7;
    assert!(parse_cie(&data, 0).is_none());
    // The terminator is not a CIE.
    assert!(parse_cie(&[0, 0, 0, 0], 0).is_none());
}

#[test]
fn parse_fde_against_its_family() {
    // The section: the CIE above, then one FDE, laid at address 0x5000.
    let mut data = cie_bytes();
    data.extend_from_slice(&[
        16, 0, 0, 0, // length
        24, 0, 0, 0, // CIE pointer: non-zero, an FDE
        0xe4, 0x0f, 0, 0, // initial location: pcrel, 0x501c + 0xfe4 = 0x6000
        0, 1, 0, 0, // address range: 0x100
        0, // augmentation data length
        0x0c, 0x03, 0x10, // def_cfa r3, 16
    ]);
    let (rec, cie_end) = parse_cie(&data, 0).unwrap();
    let (fde, next) = parse_fde(&data, cie_end, &rec, 0x5000, &no_mem()).unwrap();
    assert_eq!(next, 40);
    assert_eq!(fde.initial_location, 0x6000);
    assert_eq!(fde.address_range, 0x100);
    assert_eq!(fde.lsda, 0);
    assert_eq!(fde.instructions, vec![0x0c, 0x03, 0x10]);
    // A CIE is not an FDE.
    assert!(parse_fde(&data, 0, &rec, 0x5000, &no_mem()).is_none());
}
