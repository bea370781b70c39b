//! The stack-memory image the walker and the expression evaluator read:
//! one contiguous byte range at a fixed base address.  Reads outside the
//! range fail, which the engine treats as a fault of the unwind info.

use vstd::prelude::*;
use crate::bytes::{spec_le, read_u64_le, lemma_le_bound, pow256};

verus! {

/// A byte-addressed image of the raising thread's stack (and of any other
/// range the unwind info points into).
#[derive(Clone)]
pub struct Memory {
    /// Address of the first byte of the image.
    pub base: u64,
    pub bytes: Vec<u8>,
}

impl Memory {
    /// The image does not wrap the 64-bit address space.
    pub open spec fn wf(self) -> bool {
        self.base + self.bytes.len() <= 0x1_0000_0000_0000_0000
    }

    /// The little-endian word at `addr`, or `None` when any of its eight
    /// bytes falls outside the image.
    pub open spec fn spec_read_u64(self, addr: u64) -> Option<u64> {
        if self.base <= addr && addr - self.base + 8 <= self.bytes.len() {
            Some(spec_le(self.bytes@, addr - self.base, 8) as u64)
        } else {
            None
        }
    }

    /// Reads the word at `addr`.
    pub fn read_u64(&self, addr: u64) -> (r: Option<u64>)
        requires
            self.wf(),
        ensures
            r == self.spec_read_u64(addr),
    {
        proof {
            lemma_le_bound(self.bytes@, addr - self.base, 8);
            reveal_with_fuel(pow256, 9);
        }
        if self.base <= addr && addr - self.base < self.bytes.len() as u64 && self.bytes.len()
            as u64 - (addr - self.base) >= 8 {
            let off = (addr - self.base) as usize;
            match read_u64_le(self.bytes.as_slice(), off) {
                Some((v, _end)) => Some(v),
                None => None,
            }
        } else {
            None
        }
    }
}

} // verus!
