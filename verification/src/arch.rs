//! The register-context model: a snapshot of the target's general-purpose
//! and floating-point register files, indexed by DWARF register number.
//!
//! The hardware save/restore routines that fill and consume such a snapshot
//! are per-architecture assembly and live outside this library; everything
//! here is the portable view of the snapshot that the CFI interpreter and
//! the frame walker read and write.

use vstd::prelude::*;

verus! {

/// Number of DWARF register rules a row can carry: 32 integer registers,
/// 32 floating-point registers, 8 condition-code registers and 2 fake
/// registers (argument pointer, frame pointer), matching libgcc's
/// DWARF_FRAME_REGISTERS for the target.
pub const MAX_REG_RULES: usize = 74;

/// Number of directly addressable registers in a snapshot: the integer
/// file and the floating-point file.
pub const ADDRESSABLE_REGS: u16 = 64;

/// DWARF register number of the canonical stack-pointer slot.
pub const SP_REG: u16 = 3;

/// A snapshot of the register file.  `gp[n]` holds DWARF register `n` for
/// `n` in `0..32`, `fp[n - 32]` holds DWARF register `n` for `n` in
/// `32..64`; `pc` holds the program counter (for a snapshot taken at a call
/// site, the return address into the caller).  Floating-point registers are
/// carried as their 64-bit images.
#[derive(Clone)]
pub struct Context {
    pub gp: Vec<u64>,
    pub pc: u64,
    pub fp: Vec<u64>,
}

impl Context {
    /// Both register files have their full architectural width.
    pub open spec fn wf(self) -> bool {
        self.gp.len() == 32 && self.fp.len() == 32
    }

    /// The value of DWARF register `r` in this snapshot.
    pub open spec fn spec_reg(self, r: int) -> u64 {
        if r < 32 {
            self.gp[r]
        } else {
            self.fp[r - 32]
        }
    }

    /// The canonical stack-pointer slot.
    pub open spec fn spec_sp(self) -> u64 {
        self.spec_reg(SP_REG as int)
    }

    /// A snapshot with every register and the program counter zero.
    pub fn new() -> (r: Context)
        ensures
            r.wf(),
            r.pc == 0,
            forall|i: int| 0 <= i < ADDRESSABLE_REGS ==> r.spec_reg(i) == 0,
    {
        let mut gp: Vec<u64> = Vec::new();
        let mut fp: Vec<u64> = Vec::new();
        let mut i: usize = 0;
        while i < 32
            invariant
                i <= 32,
                gp.len() == i,
                fp.len() == i,
                forall|j: int| 0 <= j < i ==> gp[j] == 0 && fp[j] == 0,
            decreases 32 - i,
        {
            gp.push(0);
            fp.push(0);
            i += 1;
        }
        Context { gp, pc: 0, fp }
    }

    /// Read DWARF register `r`.  Register numbers outside the addressable
    /// file indicate a malformed CFI program and are rejected up front.
    pub fn reg(&self, r: u16) -> (v: u64)
        requires
            self.wf(),
            r < ADDRESSABLE_REGS,
        ensures
            v == self.spec_reg(r as int),
    {
        if r < 32 {
            self.gp[r as usize]
        } else {
            self.fp[(r - 32) as usize]
        }
    }

    /// Write DWARF register `r`, leaving every other register and the
    /// program counter unchanged.
    pub fn set_reg(&mut self, r: u16, v: u64)
        requires
            old(self).wf(),
            r < ADDRESSABLE_REGS,
        ensures
            final(self).wf(),
            final(self).spec_reg(r as int) == v,
            forall|i: int|
                0 <= i < ADDRESSABLE_REGS && i != r ==> final(self).spec_reg(i) == old(
                    self,
                ).spec_reg(i),
            final(self).pc == old(self).pc,
    {
        if r < 32 {
            self.gp.set(r as usize, v);
        } else {
            self.fp.set((r - 32) as usize, v);
        }
    }

    /// The canonical stack pointer of this snapshot.
    pub fn sp(&self) -> (v: u64)
        requires
            self.wf(),
        ensures
            v == self.spec_sp(),
    {
        self.reg(SP_REG)
    }
}

impl Default for Context {
    /// The all-zero snapshot.
    fn default() -> (r: Context)
        ensures
            r.wf(),
            r.pc == 0,
            forall|i: int| 0 <= i < ADDRESSABLE_REGS ==> r.spec_reg(i) == 0,
    {
        Context::new()
    }
}

} // verus!
