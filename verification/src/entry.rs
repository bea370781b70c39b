//! The parsed DWARF frame records: a Common Information Entry shared by a
//! family of frames, and a Frame Description Entry covering one function's
//! code range.  CIEs live in a per-object table and FDEs refer to them by
//! index, so the records stay acyclic.

use vstd::prelude::*;
use crate::arch::ADDRESSABLE_REGS;

verus! {

/// A Common Information Entry: the alignment factors, the return-address
/// register, the augmentation flags and the initial instructions that every
/// FDE of the family starts from.
#[derive(Clone)]
pub struct Cie {
    /// Factor applied to every code-advance delta; at least one.
    pub code_align: u64,
    /// Factor applied to every factored data offset.
    pub data_align: i64,
    /// DWARF number of the register that holds the return address.
    pub ra_register: u16,
    /// Augmentation `S`: frames of this family return to an interrupted
    /// instruction, not to a call site.
    pub signal_frame: bool,
    /// Augmentation `P`: the family carries a personality routine.
    pub has_personality: bool,
    /// The byte-coded initial instruction sequence.
    pub instructions: Vec<u8>,
}

impl Cie {
    /// The alignment factors are usable and the return-address register is
    /// addressable in a context snapshot.
    pub open spec fn wf(self) -> bool {
        self.code_align >= 1 && self.ra_register < ADDRESSABLE_REGS
    }
}

/// A Frame Description Entry: one function's code range, its
/// language-specific data area, and the instructions that extend the CIE's
/// base row over the function.
#[derive(Clone)]
pub struct Fde {
    /// Index of the owning CIE in the object's CIE table.
    pub cie_index: usize,
    /// First code address the entry covers.
    pub initial_location: u64,
    /// Length of the covered range; the range is half-open.
    pub address_range: u64,
    /// Address of the language-specific data area, zero when absent.
    pub lsda: u64,
    /// The byte-coded instruction sequence extending the base row.
    pub instructions: Vec<u8>,
}

impl Fde {
    /// The covered range does not wrap the address space and is non-empty.
    pub open spec fn wf(self) -> bool {
        self.address_range >= 1 && self.initial_location + self.address_range
            <= 0xffff_ffff_ffff_ffff
    }

    /// Whether `pc` falls in the covered half-open range.
    pub open spec fn spec_covers(self, pc: u64) -> bool {
        self.initial_location <= pc < self.initial_location + self.address_range
    }

    /// Whether `pc` falls in the covered half-open range.
    pub fn covers(&self, pc: u64) -> (r: bool)
        requires
            self.wf(),
        ensures
            r == self.spec_covers(pc),
    {
        self.initial_location <= pc && pc - self.initial_location < self.address_range
    }
}

} // verus!
