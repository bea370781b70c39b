//! The call-frame-information instruction set: the register-recovery rules
//! a row carries, the byte-coded instructions that build rows, and the
//! decoder from instruction bytes to instructions.

use vstd::prelude::*;
use crate::leb::{spec_uleb, spec_sleb, read_uleb128, read_sleb128, lemma_uleb_end, lemma_sleb_end};
use crate::bytes::{spec_le, read_u64_le, read_u32_le, read_u16_le};

verus! {

/// A DWARF expression embedded in an instruction stream, identified by the
/// stream it sits in (the CIE's initial instructions or the FDE's own) and
/// its byte range there.  Rows reference expressions this way so that a row
/// stays plain data and the walk allocates nothing.
#[derive(Clone, Copy, PartialEq, Eq, Structural, Debug)]
pub struct ExprRef {
    pub in_cie: bool,
    pub start: usize,
    pub end: usize,
}

/// How to recover one register of the caller's frame from the callee's
/// context and the CFA.
#[derive(Clone, Copy, PartialEq, Eq, Structural, Debug)]
pub enum RegisterRule {
    /// The register is not preserved; recovering it is an error.
    Undefined,
    /// The caller's value is the callee's value.
    SameValue,
    /// The caller's value is the word stored at `CFA + offset`.
    Offset(i64),
    /// The caller's value is `CFA + offset` itself.
    ValOffset(i64),
    /// The caller's value lives in another register of the callee.
    Register(u16),
    /// The caller's value is the word stored at the expression's value.
    Expression(ExprRef),
    /// The caller's value is the expression's value.
    ValExpression(ExprRef),
    /// Architecture-specific rule; this engine treats it as undefined.
    Architectural,
}

/// How to compute the canonical frame address from the callee's context.
#[derive(Clone, Copy, PartialEq, Eq, Structural, Debug)]
pub enum CfaRule {
    /// `CFA = register + offset`.
    RegisterOffset(u16, i64),
    /// `CFA` is the value of a DWARF expression.
    Expression(ExprRef),
}

/// One decoded call-frame instruction.  Operands are carried exactly as
/// read; code- and data-alignment factors are applied when the instruction
/// is applied to a row, not at decode time.
#[derive(Clone, Copy, PartialEq, Eq, Structural, Debug)]
pub enum CfiInstruction {
    /// Move the virtual location forward by `delta` code-alignment units.
    AdvanceLoc(u64),
    /// Move the virtual location to an absolute address.
    SetLoc(u64),
    /// `Offset` rule with an unsigned factored offset.
    Offset(u16, u64),
    /// `Offset` rule with a signed factored offset.
    OffsetSf(u16, i64),
    /// `ValOffset` rule with an unsigned factored offset.
    ValOffset(u16, u64),
    /// `ValOffset` rule with a signed factored offset.
    ValOffsetSf(u16, i64),
    /// Reinstate the register's rule from the CIE-initial row.
    Restore(u16),
    Undefined(u16),
    SameValue(u16),
    /// `Register(target, source)`: recover `target` from `source`.
    Register(u16, u16),
    RememberState,
    RestoreState,
    /// Define the CFA as register plus unsigned offset.
    DefCfa(u16, u64),
    /// Define the CFA as register plus signed factored offset.
    DefCfaSf(u16, i64),
    DefCfaRegister(u16),
    DefCfaOffset(u64),
    DefCfaOffsetSf(i64),
    DefCfaExpression(ExprRef),
    Expression(u16, ExprRef),
    ValExpression(u16, ExprRef),
    /// `GNU_args_size`: outgoing-argument area the walker adds to the
    /// caller's stack pointer.
    ArgsSize(u64),
    Nop,
}

/// Value bound under which an unsigned LEB128 operand fits a register slot.
pub const REG_LIMIT: u64 = 0x1_0000;

pub open spec fn fits_u64(v: nat) -> bool {
    v < 0x1_0000_0000_0000_0000
}

pub open spec fn fits_i64(v: int) -> bool {
    -0x8000_0000_0000_0000 <= v < 0x8000_0000_0000_0000
}

/// The instruction starting at `pos` of the stream, and the position just
/// past it; `None` on a truncated, unknown or out-of-range encoding.  This
/// is the meaning the executable decoder is proved against.
pub open spec fn spec_decode(data: Seq<u8>, pos: int, in_cie: bool) -> Option<
    (CfiInstruction, int),
> {
    if pos < 0 || pos >= data.len() {
        None
    } else {
        let b = data[pos];
        let hi = b >> 6;
        let lo = b & 0x3f;
        let p = pos + 1;
        if hi == 1 {
            Some((CfiInstruction::AdvanceLoc(lo as u64), p))
        } else if hi == 2 {
            match spec_uleb(data, p) {
                Some((off, e)) => if fits_u64(off) {
                    Some((CfiInstruction::Offset(lo as u16, off as u64), e))
                } else {
                    None
                },
                None => None,
            }
        } else if hi == 3 {
            Some((CfiInstruction::Restore(lo as u16), p))
        } else if lo == 0x00 {
            Some((CfiInstruction::Nop, p))
        } else if lo == 0x01 {
            if p + 8 <= data.len() {
                Some((CfiInstruction::SetLoc(spec_le(data, p, 8) as u64), p + 8))
            } else {
                None
            }
        } else if lo == 0x02 {
            if p + 1 <= data.len() {
                Some((CfiInstruction::AdvanceLoc(data[p] as u64), p + 1))
            } else {
                None
            }
        } else if lo == 0x03 {
            if p + 2 <= data.len() {
                Some((CfiInstruction::AdvanceLoc(spec_le(data, p, 2) as u64), p + 2))
            } else {
                None
            }
        } else if lo == 0x04 {
            if p + 4 <= data.len() {
                Some((CfiInstruction::AdvanceLoc(spec_le(data, p, 4) as u64), p + 4))
            } else {
                None
            }
        } else if lo == 0x05 {
            spec_reg_uleb(data, p, |r: u16, off: u64| CfiInstruction::Offset(r, off))
        } else if lo == 0x06 {
            spec_reg_only(data, p, |r: u16| CfiInstruction::Restore(r))
        } else if lo == 0x07 {
            spec_reg_only(data, p, |r: u16| CfiInstruction::Undefined(r))
        } else if lo == 0x08 {
            spec_reg_only(data, p, |r: u16| CfiInstruction::SameValue(r))
        } else if lo == 0x09 {
            match spec_uleb(data, p) {
                Some((r1, e1)) => if r1 < REG_LIMIT {
                    match spec_uleb(data, e1) {
                        Some((r2, e2)) => if r2 < REG_LIMIT {
                            Some((CfiInstruction::Register(r1 as u16, r2 as u16), e2))
                        } else {
                            None
                        },
                        None => None,
                    }
                } else {
                    None
                },
                None => None,
            }
        } else if lo == 0x0a {
            Some((CfiInstruction::RememberState, p))
        } else if lo == 0x0b {
            Some((CfiInstruction::RestoreState, p))
        } else if lo == 0x0c {
            spec_reg_uleb(data, p, |r: u16, off: u64| CfiInstruction::DefCfa(r, off))
        } else if lo == 0x0d {
            spec_reg_only(data, p, |r: u16| CfiInstruction::DefCfaRegister(r))
        } else if lo == 0x0e {
            match spec_uleb(data, p) {
                Some((off, e)) => if fits_u64(off) {
                    Some((CfiInstruction::DefCfaOffset(off as u64), e))
                } else {
                    None
                },
                None => None,
            }
        } else if lo == 0x0f {
            match spec_expr(data, p, in_cie) {
                Some((ex, e)) => Some((CfiInstruction::DefCfaExpression(ex), e)),
                None => None,
            }
        } else if lo == 0x10 {
            match spec_uleb(data, p) {
                Some((r, e1)) => if r < REG_LIMIT {
                    match spec_expr(data, e1, in_cie) {
                        Some((ex, e2)) => Some((CfiInstruction::Expression(r as u16, ex), e2)),
                        None => None,
                    }
                } else {
                    None
                },
                None => None,
            }
        } else if lo == 0x11 {
            spec_reg_sleb(data, p, |r: u16, off: i64| CfiInstruction::OffsetSf(r, off))
        } else if lo == 0x12 {
            spec_reg_sleb(data, p, |r: u16, off: i64| CfiInstruction::DefCfaSf(r, off))
        } else if lo == 0x13 {
            match spec_sleb(data, p) {
                Some((off, e)) => if fits_i64(off) {
                    Some((CfiInstruction::DefCfaOffsetSf(off as i64), e))
                } else {
                    None
                },
                None => None,
            }
        } else if lo == 0x14 {
            spec_reg_uleb(data, p, |r: u16, off: u64| CfiInstruction::ValOffset(r, off))
        } else if lo == 0x15 {
            spec_reg_sleb(data, p, |r: u16, off: i64| CfiInstruction::ValOffsetSf(r, off))
        } else if lo == 0x16 {
            match spec_uleb(data, p) {
                Some((r, e1)) => if r < REG_LIMIT {
                    match spec_expr(data, e1, in_cie) {
                        Some((ex, e2)) => Some((CfiInstruction::ValExpression(r as u16, ex), e2)),
                        None => None,
                    }
                } else {
                    None
                },
                None => None,
            }
        } else if lo == 0x2e {
            match spec_uleb(data, p) {
                Some((n, e)) => if fits_u64(n) {
                    Some((CfiInstruction::ArgsSize(n as u64), e))
                } else {
                    None
                },
                None => None,
            }
        } else {
            None
        }
    }
}

/// A register operand alone.
pub open spec fn spec_reg_only(
    data: Seq<u8>,
    p: int,
    mk: spec_fn(u16) -> CfiInstruction,
) -> Option<(CfiInstruction, int)> {
    match spec_uleb(data, p) {
        Some((r, e)) => if r < REG_LIMIT {
            Some((mk(r as u16), e))
        } else {
            None
        },
        None => None,
    }
}

/// A register operand followed by an unsigned LEB128 operand.
pub open spec fn spec_reg_uleb(
    data: Seq<u8>,
    p: int,
    mk: spec_fn(u16, u64) -> CfiInstruction,
) -> Option<(CfiInstruction, int)> {
    match spec_uleb(data, p) {
        Some((r, e1)) => if r < REG_LIMIT {
            match spec_uleb(data, e1) {
                Some((off, e2)) => if fits_u64(off) {
                    Some((mk(r as u16, off as u64), e2))
                } else {
                    None
                },
                None => None,
            }
        } else {
            None
        },
        None => None,
    }
}

/// A register operand followed by a signed LEB128 operand.
pub open spec fn spec_reg_sleb(
    data: Seq<u8>,
    p: int,
    mk: spec_fn(u16, i64) -> CfiInstruction,
) -> Option<(CfiInstruction, int)> {
    match spec_uleb(data, p) {
        Some((r, e1)) => if r < REG_LIMIT {
            match spec_sleb(data, e1) {
                Some((off, e2)) => if fits_i64(off) {
                    Some((mk(r as u16, off as i64), e2))
                } else {
                    None
                },
                None => None,
            }
        } else {
            None
        },
        None => None,
    }
}

/// A length-prefixed expression blob.
pub open spec fn spec_expr(data: Seq<u8>, p: int, in_cie: bool) -> Option<(ExprRef, int)> {
    match spec_uleb(data, p) {
        Some((len, e)) => if len <= data.len() - e {
            Some((ExprRef { in_cie, start: e as usize, end: (e + len) as usize }, e + len))
        } else {
            None
        },
        None => None,
    }
}

/// Reads a register operand: an unsigned LEB128 value small enough for a
/// register slot.
fn read_reg(data: &[u8], p: usize) -> (r: Option<(u16, usize)>)
    ensures
        match spec_uleb(data@, p as int) {
            Some((v, e)) => if v < REG_LIMIT {
                r == Some((v as u16, e as usize))
            } else {
                r is None
            },
            None => r is None,
        },
        r matches Some((v, e)) ==> p < e <= data@.len(),
        spec_uleb(data@, p as int) matches Some((v, e)) ==> p < e <= data@.len(),
{
    proof {
        lemma_uleb_end(data@, p as int);
    }
    match read_uleb128(data, p) {
        Some((v, e)) => if v < REG_LIMIT {
            Some((v as u16, e))
        } else {
            None
        },
        None => None,
    }
}

/// Reads a length-prefixed expression blob, returning its range in the
/// stream.
fn read_expr(data: &[u8], p: usize, in_cie: bool) -> (r: Option<(ExprRef, usize)>)
    ensures
        match spec_expr(data@, p as int, in_cie) {
            Some((ex, e)) => r == Some((ex, e as usize)),
            None => r is None,
        },
        r matches Some((ex, e)) ==> p < e <= data@.len(),
        spec_expr(data@, p as int, in_cie) matches Some((ex, e)) ==> p < e <= data@.len(),
{
    proof {
        lemma_uleb_end(data@, p as int);
    }
    let n = data.len();
    match read_uleb128(data, p) {
        Some((len, e)) => if len <= (n - e) as u64 {
            Some((ExprRef { in_cie, start: e, end: e + len as usize }, e + len as usize))
        } else {
            None
        },
        None => None,
    }
}

/// Decodes the call-frame instruction starting at `pos` of the stream.
/// Returns `None` exactly when the spec-level decode does: on a truncated,
/// unknown or out-of-range encoding, which the interpreter treats as fatal.
pub fn decode_instruction(data: &[u8], pos: usize, in_cie: bool) -> (r: Option<
    (CfiInstruction, usize),
>)
    ensures
        match spec_decode(data@, pos as int, in_cie) {
            Some((ins, end)) => r == Some((ins, end as usize)),
            None => r is None,
        },
        r matches Some((ins, end)) ==> pos < end <= data@.len(),
        spec_decode(data@, pos as int, in_cie) matches Some((ins, end)) ==> pos < end
            <= data@.len(),
{
    if pos >= data.len() {
        return None;
    }
    let b = data[pos];
    let hi = b >> 6;
    let lo = b & 0x3f;
    let p = pos + 1;
    proof {
        assert(b & 0x3f < 0x40) by (bit_vector);
        lemma_uleb_end(data@, p as int);
        lemma_sleb_end(data@, p as int);
    }
    if hi == 1 {
        Some((CfiInstruction::AdvanceLoc(lo as u64), p))
    } else if hi == 2 {
        match read_uleb128(data, p) {
            Some((off, e)) => Some((CfiInstruction::Offset(lo as u16, off), e)),
            None => None,
        }
    } else if hi == 3 {
        Some((CfiInstruction::Restore(lo as u16), p))
    } else if lo == 0x00 {
        Some((CfiInstruction::Nop, p))
    } else if lo == 0x01 {
        match read_u64_le(data, p) {
            Some((addr, e)) => Some((CfiInstruction::SetLoc(addr), e)),
            None => None,
        }
    } else if lo == 0x02 {
        if p < data.len() {
            Some((CfiInstruction::AdvanceLoc(data[p] as u64), p + 1))
        } else {
            None
        }
    } else if lo == 0x03 {
        match read_u16_le(data, p) {
            Some((d, e)) => Some((CfiInstruction::AdvanceLoc(d), e)),
            None => None,
        }
    } else if lo == 0x04 {
        match read_u32_le(data, p) {
            Some((d, e)) => Some((CfiInstruction::AdvanceLoc(d), e)),
            None => None,
        }
    } else if lo == 0x05 {
        match read_reg(data, p) {
            Some((r1, e1)) => match read_uleb128(data, e1) {
                Some((off, e2)) => Some((CfiInstruction::Offset(r1, off), e2)),
                None => None,
            },
            None => None,
        }
    } else if lo == 0x06 {
        match read_reg(data, p) {
            Some((r1, e)) => Some((CfiInstruction::Restore(r1), e)),
            None => None,
        }
    } else if lo == 0x07 {
        match read_reg(data, p) {
            Some((r1, e)) => Some((CfiInstruction::Undefined(r1), e)),
            None => None,
        }
    } else if lo == 0x08 {
        match read_reg(data, p) {
            Some((r1, e)) => Some((CfiInstruction::SameValue(r1), e)),
            None => None,
        }
    } else if lo == 0x09 {
        match read_reg(data, p) {
            Some((r1, e1)) => match read_reg(data, e1) {
                Some((r2, e2)) => Some((CfiInstruction::Register(r1, r2), e2)),
                None => None,
            },
            None => None,
        }
    } else if lo == 0x0a {
        Some((CfiInstruction::RememberState, p))
    } else if lo == 0x0b {
        Some((CfiInstruction::RestoreState, p))
    } else if lo == 0x0c {
        match read_reg(data, p) {
            Some((r1, e1)) => match read_uleb128(data, e1) {
                Some((off, e2)) => Some((CfiInstruction::DefCfa(r1, off), e2)),
                None => None,
            },
            None => None,
        }
    } else if lo == 0x0d {
        match read_reg(data, p) {
            Some((r1, e)) => Some((CfiInstruction::DefCfaRegister(r1), e)),
            None => None,
        }
    } else if lo == 0x0e {
        match read_uleb128(data, p) {
            Some((off, e)) => Some((CfiInstruction::DefCfaOffset(off), e)),
            None => None,
        }
    } else if lo == 0x0f {
        match read_expr(data, p, in_cie) {
            Some((ex, e)) => Some((CfiInstruction::DefCfaExpression(ex), e)),
            None => None,
        }
    } else if lo == 0x10 {
        match read_reg(data, p) {
            Some((r1, e1)) => match read_expr(data, e1, in_cie) {
                Some((ex, e2)) => Some((CfiInstruction::Expression(r1, ex), e2)),
                None => None,
            },
            None => None,
        }
    } else if lo == 0x11 {
        match read_reg(data, p) {
            Some((r1, e1)) => match read_sleb128(data, e1) {
                Some((off, e2)) => Some((CfiInstruction::OffsetSf(r1, off), e2)),
                None => None,
            },
            None => None,
        }
    } else if lo == 0x12 {
        match read_reg(data, p) {
            Some((r1, e1)) => match read_sleb128(data, e1) {
                Some((off, e2)) => Some((CfiInstruction::DefCfaSf(r1, off), e2)),
                None => None,
            },
            None => None,
        }
    } else if lo == 0x13 {
        match read_sleb128(data, p) {
            Some((off, e)) => Some((CfiInstruction::DefCfaOffsetSf(off), e)),
            None => None,
        }
    } else if lo == 0x14 {
        match read_reg(data, p) {
            Some((r1, e1)) => match read_uleb128(data, e1) {
                Some((off, e2)) => Some((CfiInstruction::ValOffset(r1, off), e2)),
                None => None,
            },
            None => None,
        }
    } else if lo == 0x15 {
        match read_reg(data, p) {
            Some((r1, e1)) => match read_sleb128(data, e1) {
                Some((off, e2)) => Some((CfiInstruction::ValOffsetSf(r1, off), e2)),
                None => None,
            },
            None => None,
        }
    } else if lo == 0x16 {
        match read_reg(data, p) {
            Some((r1, e1)) => match read_expr(data, e1, in_cie) {
                Some((ex, e2)) => Some((CfiInstruction::ValExpression(r1, ex), e2)),
                None => None,
            },
            None => None,
        }
    } else if lo == 0x2e {
        match read_uleb128(data, p) {
            Some((n, e)) => Some((CfiInstruction::ArgsSize(n), e)),
            None => None,
        }
    } else {
        None
    }
}

} // verus!
