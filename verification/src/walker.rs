//! The frame walker: given a frame's register snapshot, finds the unwind
//! records covering its program counter, runs the CFI machine to get the
//! row in force there, and applies the row's rules to produce the caller's
//! snapshot.
//!
//! The lookup address is `pc - 1` for an ordinary frame — the snapshot's
//! program counter is a return address, and the responsible records are the
//! ones covering the call — and `pc` itself when the frame below was a
//! signal frame, whose "return address" is an interrupted instruction.

use vstd::prelude::*;
use crate::arch::{Context, ADDRESSABLE_REGS, MAX_REG_RULES, SP_REG};
use crate::cfi::{CfaRule, ExprRef, RegisterRule};
use crate::entry::{Cie, Fde};
use crate::expr::{spec_eval_expr, eval_expr};
use crate::mem::Memory;
use crate::registry::ObjectRegistry;
use crate::vm::{SpecRow, Row, spec_compute_row, compute_row};

verus! {

/// What one walking step found for a frame.
pub struct FrameDetails {
    /// The caller's register snapshot.
    pub caller: Context,
    /// The frame's canonical frame address.
    pub cfa: u64,
    /// The frame's language-specific data area, zero when absent.
    pub lsda: u64,
    /// First code address of the frame's function.
    pub region_start: u64,
    /// Whether the frame's records carry the signal-frame augmentation.
    pub signal_frame: bool,
    /// Whether the frame's family carries a personality routine.
    pub has_personality: bool,
    /// Start of the covering object's text range, the text-relative base.
    pub text_base: u64,
}

/// Result of one walking step.
pub enum StepResult {
    /// The caller's snapshot and the frame's details.
    Frame(FrameDetails),
    /// The outermost frame was reached: no record covers the address (then
    /// there is nothing to produce), or the return-address rule is
    /// undefined — the frame's details are still produced, where the row
    /// applies, so callers can inspect them.
    EndOfStack(Option<FrameDetails>),
    /// Malformed or unusable unwind info; fatal in any phase.
    Fatal,
}

/// The bytes an expression reference denotes, guarded against a stale
/// range.
pub open spec fn spec_expr_bytes(ex: ExprRef, cie: Cie, fde: Fde) -> Option<Seq<u8>> {
    let src = if ex.in_cie {
        cie.instructions@
    } else {
        fde.instructions@
    };
    if ex.start <= ex.end <= src.len() {
        Some(src.subrange(ex.start as int, ex.end as int))
    } else {
        None
    }
}

/// The frame's canonical frame address under the row's CFA rule, or `None`
/// on any fault.
pub open spec fn spec_cfa_value(rule: CfaRule, cie: Cie, fde: Fde, ctx: Context, mem: Memory) -> Option<
    u64,
> {
    match rule {
        CfaRule::RegisterOffset(r, off) => if r < ADDRESSABLE_REGS {
            let v = ctx.spec_reg(r as int) + off;
            if 0 <= v < 0x1_0000_0000_0000_0000 {
                Some(v as u64)
            } else {
                None
            }
        } else {
            None
        },
        CfaRule::Expression(ex) => match spec_expr_bytes(ex, cie, fde) {
            Some(bytes) => spec_eval_expr(bytes, ctx, mem, None),
            None => None,
        },
    }
}

/// The caller-side value of one register under its recovery rule, or
/// `None` on any fault.  An undefined or same-value rule keeps the
/// callee's value.
pub open spec fn spec_rule_value(
    rule: RegisterRule,
    reg_num: int,
    cfa: u64,
    cie: Cie,
    fde: Fde,
    ctx: Context,
    mem: Memory,
) -> Option<u64> {
    match rule {
        RegisterRule::Undefined => Some(ctx.spec_reg(reg_num)),
        RegisterRule::SameValue => Some(ctx.spec_reg(reg_num)),
        RegisterRule::Architectural => None,
        RegisterRule::Offset(n) => {
            let a = cfa + n;
            if 0 <= a < 0x1_0000_0000_0000_0000 {
                mem.spec_read_u64(a as u64)
            } else {
                None
            }
        },
        RegisterRule::ValOffset(n) => {
            let a = cfa + n;
            if 0 <= a < 0x1_0000_0000_0000_0000 {
                Some(a as u64)
            } else {
                None
            }
        },
        RegisterRule::Register(s) => if s < ADDRESSABLE_REGS {
            Some(ctx.spec_reg(s as int))
        } else {
            None
        },
        RegisterRule::Expression(ex) => match spec_expr_bytes(ex, cie, fde) {
            Some(bytes) => match spec_eval_expr(bytes, ctx, mem, Some(cfa)) {
                Some(a) => mem.spec_read_u64(a),
                None => None,
            },
            None => None,
        },
        RegisterRule::ValExpression(ex) => match spec_expr_bytes(ex, cie, fde) {
            Some(bytes) => spec_eval_expr(bytes, ctx, mem, Some(cfa)),
            None => None,
        },
    }
}

/// The row cannot be applied to the snapshot: its CFA faults, a rule on an
/// addressable register faults, a rule sits on a register no snapshot
/// carries, or the caller's stack pointer leaves the address space.
pub open spec fn spec_row_faults(row: SpecRow, cie: Cie, fde: Fde, ctx: Context, mem: Memory) -> bool {
    match spec_cfa_value(row.cfa, cie, fde, ctx, mem) {
        None => true,
        Some(cfa) => {
            ||| exists|t: int|
                0 <= t < ADDRESSABLE_REGS && t != SP_REG && spec_rule_value(
                    #[trigger] row.rules[t],
                    t,
                    cfa,
                    cie,
                    fde,
                    ctx,
                    mem,
                ) is None
            ||| exists|t: int|
                ADDRESSABLE_REGS <= t < MAX_REG_RULES && !((#[trigger] row.rules[t])
                    is Undefined)
            ||| cfa + row.args >= 0x1_0000_0000_0000_0000
        },
    }
}

/// The details `fs` are exactly what applying `row` to the snapshot
/// yields: the CFA from the row's CFA rule, every addressable register
/// recovered by its rule, the stack pointer re-based to `CFA + args_size`,
/// the program counter taken from the recovered return-address register,
/// and the frame's metadata copied from its records.
pub open spec fn spec_row_applies(
    row: SpecRow,
    cie: Cie,
    fde: Fde,
    ctx: Context,
    mem: Memory,
    fs: FrameDetails,
) -> bool {
    &&& spec_cfa_value(row.cfa, cie, fde, ctx, mem) == Some(fs.cfa)
    &&& fs.cfa + row.args < 0x1_0000_0000_0000_0000
    &&& fs.caller.wf()
    &&& forall|t: int|
        0 <= t < ADDRESSABLE_REGS && t != SP_REG ==> Some(fs.caller.spec_reg(t))
            == spec_rule_value(#[trigger] row.rules[t], t, fs.cfa, cie, fde, ctx, mem)
    &&& forall|t: int|
        ADDRESSABLE_REGS <= t < MAX_REG_RULES ==> (#[trigger] row.rules[t]) is Undefined
    &&& fs.caller.spec_sp() == fs.cfa + row.args
    &&& fs.caller.pc == fs.caller.spec_reg(cie.ra_register as int)
    &&& fs.lsda == fde.lsda
    &&& fs.region_start == fde.initial_location
    &&& fs.signal_frame == cie.signal_frame
    &&& fs.has_personality == cie.has_personality
}

/// The address whose records unwind the frame `ctx` describes.
pub open spec fn spec_lookup_pc(ctx: Context, from_signal: bool) -> u64
    recommends
        from_signal || ctx.pc >= 1,
{
    if from_signal {
        ctx.pc
    } else {
        (ctx.pc - 1) as u64
    }
}

/// Copies a register snapshot.
#[verifier::loop_isolation(false)]
pub(crate) fn clone_context(ctx: &Context) -> (r: Context)
    requires
        ctx.wf(),
    ensures
        r.wf(),
        r.pc == ctx.pc,
        forall|t: int| 0 <= t < ADDRESSABLE_REGS ==> r.spec_reg(t) == ctx.spec_reg(t),
{
    let mut r = Context::new();
    r.pc = ctx.pc;
    let mut t: u16 = 0;
    while t < ADDRESSABLE_REGS
        invariant
            t <= ADDRESSABLE_REGS,
            r.wf(),
            r.pc == ctx.pc,
            forall|u: int| 0 <= u < t ==> r.spec_reg(u) == ctx.spec_reg(u),
        decreases ADDRESSABLE_REGS - t,
    {
        let v = ctx.reg(t);
        r.set_reg(t, v);
        t += 1;
    }
    r
}

/// Evaluates the expression an `ExprRef` points at.
fn eval_expr_ref(ex: ExprRef, cie: &Cie, fde: &Fde, ctx: &Context, mem: &Memory, seed: Option<
    u64,
>) -> (r: Option<u64>)
    requires
        ctx.wf(),
        mem.wf(),
    ensures
        r == (match spec_expr_bytes(ex, *cie, *fde) {
            Some(bytes) => spec_eval_expr(bytes, *ctx, *mem, seed),
            None => None::<u64>,
        }),
{
    let src: &Vec<u8> = if ex.in_cie {
        &cie.instructions
    } else {
        &fde.instructions
    };
    if ex.start <= ex.end && ex.end <= src.len() {
        let bytes = vstd::slice::slice_subrange(src.as_slice(), ex.start, ex.end);
        eval_expr(bytes, ctx, mem, seed)
    } else {
        None
    }
}

/// Computes the CFA under the row's CFA rule.
fn cfa_value(rule: CfaRule, cie: &Cie, fde: &Fde, ctx: &Context, mem: &Memory) -> (r: Option<u64>)
    requires
        ctx.wf(),
        mem.wf(),
    ensures
        r == spec_cfa_value(rule, *cie, *fde, *ctx, *mem),
{
    match rule {
        CfaRule::RegisterOffset(r, off) => {
            if r < ADDRESSABLE_REGS {
                let base = ctx.reg(r);
                let wide: i128 = base as i128 + off as i128;
                if 0i128 <= wide && wide <= 0xffff_ffff_ffff_ffffi128 {
                    Some(wide as u64)
                } else {
                    None
                }
            } else {
                None
            }
        },
        CfaRule::Expression(ex) => eval_expr_ref(ex, cie, fde, ctx, mem, None),
    }
}

/// Recovers one register's caller-side value under its rule.
fn rule_value(
    rule: RegisterRule,
    reg_num: u16,
    cfa: u64,
    cie: &Cie,
    fde: &Fde,
    ctx: &Context,
    mem: &Memory,
) -> (r: Option<u64>)
    requires
        ctx.wf(),
        mem.wf(),
        reg_num < ADDRESSABLE_REGS,
    ensures
        r == spec_rule_value(rule, reg_num as int, cfa, *cie, *fde, *ctx, *mem),
{
    match rule {
        RegisterRule::Undefined => Some(ctx.reg(reg_num)),
        RegisterRule::SameValue => Some(ctx.reg(reg_num)),
        RegisterRule::Architectural => None,
        RegisterRule::Offset(n) => {
            let wide: i128 = cfa as i128 + n as i128;
            if 0i128 <= wide && wide <= 0xffff_ffff_ffff_ffffi128 {
                mem.read_u64(wide as u64)
            } else {
                None
            }
        },
        RegisterRule::ValOffset(n) => {
            let wide: i128 = cfa as i128 + n as i128;
            if 0i128 <= wide && wide <= 0xffff_ffff_ffff_ffffi128 {
                Some(wide as u64)
            } else {
                None
            }
        },
        RegisterRule::Register(s) => {
            if s < ADDRESSABLE_REGS {
                Some(ctx.reg(s))
            } else {
                None
            }
        },
        RegisterRule::Expression(ex) => {
            match eval_expr_ref(ex, cie, fde, ctx, mem, Some(cfa)) {
                Some(a) => mem.read_u64(a),
                None => None,
            }
        },
        RegisterRule::ValExpression(ex) => eval_expr_ref(ex, cie, fde, ctx, mem, Some(cfa)),
    }
}

/// Applies a computed row to the frame's snapshot, yielding the frame's
/// details and the caller's snapshot; `None` exactly when
/// `spec_row_faults` holds.
#[verifier::loop_isolation(false)]
fn apply_row(row: &Row, cie: &Cie, fde: &Fde, ctx: &Context, mem: &Memory) -> (r: Option<
    FrameDetails,
>)
    requires
        row.wf(),
        cie.wf(),
        ctx.wf(),
        mem.wf(),
    ensures
        match r {
            Some(fs) => spec_row_applies(row@, *cie, *fde, *ctx, *mem, fs) && !spec_row_faults(
                row@,
                *cie,
                *fde,
                *ctx,
                *mem,
            ),
            None => spec_row_faults(row@, *cie, *fde, *ctx, *mem),
        },
{
    let cfa = match cfa_value(row.cfa, cie, fde, ctx, mem) {
        Some(c) => c,
        None => {
            return None;
        },
    };
    let mut caller = clone_context(ctx);
    let mut t: u16 = 0;
    while t < ADDRESSABLE_REGS
        invariant
            t <= ADDRESSABLE_REGS,
            caller.wf(),
            forall|u: int|
                0 <= u < t && u != SP_REG ==> Some(caller.spec_reg(u)) == spec_rule_value(
                    #[trigger] row@.rules[u],
                    u,
                    cfa,
                    *cie,
                    *fde,
                    *ctx,
                    *mem,
                ),
            forall|u: int| t <= u < ADDRESSABLE_REGS ==> caller.spec_reg(u) == ctx.spec_reg(u),
        decreases ADDRESSABLE_REGS - t,
    {
        if t != SP_REG {
            match rule_value(row.rules[t as usize], t, cfa, cie, fde, ctx, mem) {
                Some(v) => {
                    caller.set_reg(t, v);
                },
                None => {
                    return None;
                },
            }
        }
        t += 1;
    }
    // Rules on registers no snapshot carries are unusable.
    let mut u: usize = ADDRESSABLE_REGS as usize;
    while u < MAX_REG_RULES
        invariant
            ADDRESSABLE_REGS <= u <= MAX_REG_RULES,
            forall|w: int| ADDRESSABLE_REGS <= w < u ==> (#[trigger] row@.rules[w]) is Undefined,
        decreases MAX_REG_RULES - u,
    {
        match row.rules[u] {
            RegisterRule::Undefined => {},
            _ => {
                return None;
            },
        }
        u += 1;
    }
    // The caller's stack pointer is the CFA plus the outgoing-argument
    // area; the caller's program counter is the recovered return address.
    if row.args_size > u64::MAX - cfa {
        return None;
    }
    caller.set_reg(SP_REG, cfa + row.args_size);
    let ra = caller.reg(cie.ra_register);
    caller.pc = ra;
    Some(
        FrameDetails {
            caller,
            cfa,
            lsda: fde.lsda,
            region_start: fde.initial_location,
            signal_frame: cie.signal_frame,
            has_personality: cie.has_personality,
            text_base: 0,
        },
    )
}

/// One walking step: look the frame's records up, compute the row in force
/// at its program counter, and produce the caller's snapshot.  The frame's
/// CFA must lie strictly above the frame's own stack pointer — a
/// non-monotonic frame is treated as fatal, so no walk revisits a frame.
pub fn step(reg: &ObjectRegistry, mem: &Memory, ctx: &Context, from_signal: bool) -> (r:
    StepResult)
    requires
        reg.wf(),
        mem.wf(),
        ctx.wf(),
    ensures
        match r {
            StepResult::Frame(fs) => {
                &&& (from_signal || ctx.pc >= 1)
                &&& fs.caller.wf()
                &&& fs.cfa > ctx.spec_sp()
                &&& fs.cfa <= fs.caller.spec_sp()
                &&& fs.caller.spec_sp() > ctx.spec_sp()
                &&& exists|i: int, j: int|
                    {
                        &&& 0 <= i < reg.objects@.len()
                        &&& 0 <= j < (#[trigger] reg.objects@[i]).fdes@.len()
                        &&& (#[trigger] reg.objects@[i].fdes@[j]).spec_covers(
                            spec_lookup_pc(*ctx, from_signal),
                        )
                        &&& {
                            let fde = reg.objects@[i].fdes@[j];
                            let cie = reg.objects@[i].cies@[fde.cie_index as int];
                            match spec_compute_row(cie, fde, spec_lookup_pc(*ctx, from_signal)) {
                                Some(row) => spec_row_applies(row, cie, fde, *ctx, *mem, fs)
                                    && fs.text_base == reg.objects@[i].text_start && !(
                                row.rules[cie.ra_register as int] is Undefined),
                                None => false,
                            }
                        }
                    }
            },
            StepResult::EndOfStack(det) => {
                ||| (((!from_signal && ctx.pc == 0) || !reg.spec_has_fde(
                    spec_lookup_pc(*ctx, from_signal),
                )) && det is None)
                ||| exists|i: int, j: int|
                    {
                        &&& 0 <= i < reg.objects@.len()
                        &&& 0 <= j < (#[trigger] reg.objects@[i]).fdes@.len()
                        &&& (#[trigger] reg.objects@[i].fdes@[j]).spec_covers(
                            spec_lookup_pc(*ctx, from_signal),
                        )
                        &&& {
                            let fde = reg.objects@[i].fdes@[j];
                            let cie = reg.objects@[i].cies@[fde.cie_index as int];
                            match spec_compute_row(cie, fde, spec_lookup_pc(*ctx, from_signal)) {
                                Some(row) => row.rules[cie.ra_register as int] is Undefined && (
                                match det {
                                    Some(fs) => spec_row_applies(row, cie, fde, *ctx, *mem, fs),
                                    None => spec_row_faults(row, cie, fde, *ctx, *mem),
                                }),
                                None => false,
                            }
                        }
                    }
            },
            StepResult::Fatal => (from_signal || ctx.pc >= 1) && exists|i: int, j: int|
                {
                    &&& 0 <= i < reg.objects@.len()
                    &&& 0 <= j < (#[trigger] reg.objects@[i]).fdes@.len()
                    &&& (#[trigger] reg.objects@[i].fdes@[j]).spec_covers(
                        spec_lookup_pc(*ctx, from_signal),
                    )
                    &&& {
                        let fde = reg.objects@[i].fdes@[j];
                        let cie = reg.objects@[i].cies@[fde.cie_index as int];
                        match spec_compute_row(cie, fde, spec_lookup_pc(*ctx, from_signal)) {
                            Some(row) => spec_row_faults(row, cie, fde, *ctx, *mem) || !(
                            row.rules[cie.ra_register as int] is Undefined),
                            None => true,
                        }
                    }
                },
        },
{
    if !from_signal && ctx.pc == 0 {
        return StepResult::EndOfStack(None);
    }
    let lookup_pc = if from_signal {
        ctx.pc
    } else {
        ctx.pc - 1
    };
    let (i, j) = match reg.find(lookup_pc) {
        Some(p) => p,
        None => {
            return StepResult::EndOfStack(None);
        },
    };
    let obj = &reg.objects[i];
    let fde = &obj.fdes[j];
    let cie = &obj.cies[fde.cie_index];
    let row = match compute_row(cie, fde, lookup_pc) {
        Some(row) => row,
        None => {
            return StepResult::Fatal;
        },
    };
    match row.rules[cie.ra_register as usize] {
        RegisterRule::Undefined => {
            // The outermost frame: produce the caller's snapshot anyway,
            // so the caller of the walk can inspect it.
            match apply_row(&row, cie, fde, ctx, mem) {
                Some(mut fs) => {
                    fs.text_base = obj.text_start;
                    return StepResult::EndOfStack(Some(fs));
                },
                None => {
                    return StepResult::EndOfStack(None);
                },
            }
        },
        _ => {},
    }
    match apply_row(&row, cie, fde, ctx, mem) {
        Some(mut fs) => {
            fs.text_base = obj.text_start;
            if fs.cfa > ctx.sp() {
                StepResult::Frame(fs)
            } else {
                StepResult::Fatal
            }
        },
        None => StepResult::Fatal,
    }
}

} // verus!
