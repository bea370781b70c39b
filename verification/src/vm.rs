//! The CFI virtual machine: executes a CIE's initial instructions followed
//! by an FDE's instructions, halting once the virtual location passes the
//! target program counter, and yields the unwind table row in force there.
//!
//! The meaning of a run is the spec-level fold `spec_run`; the executable
//! machine is proved equal to it.

use vstd::prelude::*;
use crate::arch::MAX_REG_RULES;
use crate::cfi::{CfaRule, CfiInstruction, RegisterRule, spec_decode, decode_instruction};
use crate::entry::{Cie, Fde};

verus! {

/// Depth of the `remember_state` stack; pushing past it is fatal.
pub const STATE_STACK_DEPTH: usize = 8;

/// An unwind table row: for each DWARF register the rule that recovers the
/// caller's value, the CFA definition, the accumulated outgoing-argument
/// size, and the half-open code range `[start, end)` the row is valid for.
#[derive(Clone)]
pub struct Row {
    pub start: u64,
    pub end: u64,
    pub cfa: CfaRule,
    pub rules: Vec<RegisterRule>,
    pub args_size: u64,
}

/// The mathematical image of a row.
pub ghost struct SpecRow {
    pub start: int,
    pub end: int,
    pub cfa: CfaRule,
    pub rules: Seq<RegisterRule>,
    pub args: int,
}

impl Row {
    pub open spec fn wf(self) -> bool {
        self.rules.len() == MAX_REG_RULES
    }

    pub open spec fn view(self) -> SpecRow {
        SpecRow {
            start: self.start as int,
            end: self.end as int,
            cfa: self.cfa,
            rules: self.rules@,
            args: self.args_size as int,
        }
    }
}

/// The machine's state between instructions.
pub struct VmState {
    pub loc: u64,
    pub start: u64,
    pub end: Option<u64>,
    pub cfa: Option<CfaRule>,
    pub rules: Vec<RegisterRule>,
    pub args: u64,
    pub stack: Vec<(Option<CfaRule>, Vec<RegisterRule>)>,
}

/// The mathematical image of the machine's state.
pub ghost struct SpecVm {
    pub loc: int,
    pub start: int,
    pub end: Option<int>,
    pub cfa: Option<CfaRule>,
    pub rules: Seq<RegisterRule>,
    pub args: int,
    pub stack: Seq<(Option<CfaRule>, Seq<RegisterRule>)>,
}

impl VmState {
    pub open spec fn wf(self) -> bool {
        &&& self.rules.len() == MAX_REG_RULES
        &&& forall|i: int|
            0 <= i < self.stack.len() ==> (#[trigger] self.stack[i]).1.len() == MAX_REG_RULES
    }

    pub open spec fn view(self) -> SpecVm {
        SpecVm {
            loc: self.loc as int,
            start: self.start as int,
            end: match self.end {
                Some(e) => Some(e as int),
                None => None,
            },
            cfa: self.cfa,
            rules: self.rules@,
            args: self.args as int,
            stack: self.stack@.map_values(|t: (Option<CfaRule>, Vec<RegisterRule>)| (t.0, t.1@)),
        }
    }
}

/// `off * factor` when it fits a signed word, else `None` (a fatal
/// overflow in the unwind info).
pub open spec fn spec_mul_u(off: u64, factor: i64) -> Option<i64> {
    if -0x8000_0000_0000_0000 <= off * factor < 0x8000_0000_0000_0000 {
        Some((off * factor) as i64)
    } else {
        None
    }
}

/// `off * factor` for a signed factored operand.
pub open spec fn spec_mul_s(off: i64, factor: i64) -> Option<i64> {
    if -0x8000_0000_0000_0000 <= off * factor < 0x8000_0000_0000_0000 {
        Some((off * factor) as i64)
    } else {
        None
    }
}

fn mul_factor_u(off: u64, factor: i64) -> (r: Option<i64>)
    ensures
        r == spec_mul_u(off, factor),
{
    proof {
        assert(off * factor <= 0xffff_ffff_ffff_ffff * 0x7fff_ffff_ffff_ffff && off * factor
            >= 0xffff_ffff_ffff_ffff * (-0x8000_0000_0000_0000)) by (nonlinear_arith)
            requires
                0 <= off <= 0xffff_ffff_ffff_ffff,
                -0x8000_0000_0000_0000 <= factor <= 0x7fff_ffff_ffff_ffff,
        ;
    }
    let wide: i128 = off as i128 * factor as i128;
    if -0x8000_0000_0000_0000i128 <= wide && wide < 0x8000_0000_0000_0000i128 {
        Some(wide as i64)
    } else {
        None
    }
}

fn mul_factor_s(off: i64, factor: i64) -> (r: Option<i64>)
    ensures
        r == spec_mul_s(off, factor),
{
    proof {
        assert((-0x8000_0000_0000_0000) * (-0x8000_0000_0000_0000) >= off * factor >= (
        -0x8000_0000_0000_0000) * 0x7fff_ffff_ffff_ffff) by (nonlinear_arith)
            requires
                -0x8000_0000_0000_0000 <= off <= 0x7fff_ffff_ffff_ffff,
                -0x8000_0000_0000_0000 <= factor <= 0x7fff_ffff_ffff_ffff,
        ;
    }
    let wide: i128 = off as i128 * factor as i128;
    if -0x8000_0000_0000_0000i128 <= wide && wide < 0x8000_0000_0000_0000i128 {
        Some(wide as i64)
    } else {
        None
    }
}

/// Applies one non-location instruction to the state: `None` is a fatal
/// condition (register out of range, alignment overflow, state-stack abuse,
/// or a CFA modification with no CFA defined).
pub open spec fn spec_apply(
    s: SpecVm,
    ins: CfiInstruction,
    data_align: i64,
    in_cie: bool,
    initial: Seq<RegisterRule>,
) -> Option<SpecVm> {
    match ins {
        CfiInstruction::Offset(r, off) => if r < MAX_REG_RULES {
            match spec_mul_u(off, data_align) {
                Some(f) => Some(
                    SpecVm { rules: s.rules.update(r as int, RegisterRule::Offset(f)), ..s },
                ),
                None => None,
            }
        } else {
            None
        },
        CfiInstruction::OffsetSf(r, off) => if r < MAX_REG_RULES {
            match spec_mul_s(off, data_align) {
                Some(f) => Some(
                    SpecVm { rules: s.rules.update(r as int, RegisterRule::Offset(f)), ..s },
                ),
                None => None,
            }
        } else {
            None
        },
        CfiInstruction::ValOffset(r, off) => if r < MAX_REG_RULES {
            match spec_mul_u(off, data_align) {
                Some(f) => Some(
                    SpecVm { rules: s.rules.update(r as int, RegisterRule::ValOffset(f)), ..s },
                ),
                None => None,
            }
        } else {
            None
        },
        CfiInstruction::ValOffsetSf(r, off) => if r < MAX_REG_RULES {
            match spec_mul_s(off, data_align) {
                Some(f) => Some(
                    SpecVm { rules: s.rules.update(r as int, RegisterRule::ValOffset(f)), ..s },
                ),
                None => None,
            }
        } else {
            None
        },
        CfiInstruction::Restore(r) => if r < MAX_REG_RULES && !in_cie {
            Some(SpecVm { rules: s.rules.update(r as int, initial[r as int]), ..s })
        } else {
            None
        },
        CfiInstruction::Undefined(r) => if r < MAX_REG_RULES {
            Some(SpecVm { rules: s.rules.update(r as int, RegisterRule::Undefined), ..s })
        } else {
            None
        },
        CfiInstruction::SameValue(r) => if r < MAX_REG_RULES {
            Some(SpecVm { rules: s.rules.update(r as int, RegisterRule::SameValue), ..s })
        } else {
            None
        },
        CfiInstruction::Register(t, src) => if t < MAX_REG_RULES {
            Some(SpecVm { rules: s.rules.update(t as int, RegisterRule::Register(src)), ..s })
        } else {
            None
        },
        CfiInstruction::RememberState => if s.stack.len() < STATE_STACK_DEPTH {
            Some(SpecVm { stack: s.stack.push((s.cfa, s.rules)), ..s })
        } else {
            None
        },
        CfiInstruction::RestoreState => if s.stack.len() >= 1 {
            Some(
                SpecVm {
                    cfa: s.stack.last().0,
                    rules: s.stack.last().1,
                    stack: s.stack.drop_last(),
                    ..s
                },
            )
        } else {
            None
        },
        CfiInstruction::DefCfa(r, off) => if off <= 0x7fff_ffff_ffff_ffff {
            Some(SpecVm { cfa: Some(CfaRule::RegisterOffset(r, off as i64)), ..s })
        } else {
            None
        },
        CfiInstruction::DefCfaSf(r, off) => match spec_mul_s(off, data_align) {
            Some(f) => Some(SpecVm { cfa: Some(CfaRule::RegisterOffset(r, f)), ..s }),
            None => None,
        },
        CfiInstruction::DefCfaRegister(r) => match s.cfa {
            Some(CfaRule::RegisterOffset(_old, off)) => Some(
                SpecVm { cfa: Some(CfaRule::RegisterOffset(r, off)), ..s },
            ),
            _ => None,
        },
        CfiInstruction::DefCfaOffset(off) => if off <= 0x7fff_ffff_ffff_ffff {
            match s.cfa {
                Some(CfaRule::RegisterOffset(r, _old)) => Some(
                    SpecVm { cfa: Some(CfaRule::RegisterOffset(r, off as i64)), ..s },
                ),
                _ => None,
            }
        } else {
            None
        },
        CfiInstruction::DefCfaOffsetSf(off) => match spec_mul_s(off, data_align) {
            Some(f) => match s.cfa {
                Some(CfaRule::RegisterOffset(r, _old)) => Some(
                    SpecVm { cfa: Some(CfaRule::RegisterOffset(r, f)), ..s },
                ),
                _ => None,
            },
            None => None,
        },
        CfiInstruction::DefCfaExpression(ex) => Some(
            SpecVm { cfa: Some(CfaRule::Expression(ex)), ..s },
        ),
        CfiInstruction::Expression(r, ex) => if r < MAX_REG_RULES {
            Some(SpecVm { rules: s.rules.update(r as int, RegisterRule::Expression(ex)), ..s })
        } else {
            None
        },
        CfiInstruction::ValExpression(r, ex) => if r < MAX_REG_RULES {
            Some(SpecVm { rules: s.rules.update(r as int, RegisterRule::ValExpression(ex)), ..s })
        } else {
            None
        },
        CfiInstruction::ArgsSize(n) => Some(SpecVm { args: n as int, ..s }),
        CfiInstruction::Nop => Some(s),
        CfiInstruction::AdvanceLoc(_) => Some(s),
        CfiInstruction::SetLoc(_) => Some(s),
    }
}

/// Runs the instruction stream from `pos` on: decodes each instruction,
/// moves the virtual location on the location instructions — halting with
/// the row's end recorded once it passes `target` — and applies the rest.
/// `None` is a fatal decode or application error.
pub open spec fn spec_run(
    data: Seq<u8>,
    pos: int,
    s: SpecVm,
    code_align: int,
    data_align: i64,
    in_cie: bool,
    initial: Seq<RegisterRule>,
    target: Option<int>,
) -> Option<SpecVm>
    decreases data.len() - pos,
{
    if pos == data.len() {
        Some(s)
    } else {
        match spec_decode(data, pos, in_cie) {
            None => None,
            Some((ins, end)) => if end <= pos || end > data.len() {
                None
            } else {
                match ins {
                    CfiInstruction::AdvanceLoc(delta) => {
                        let new_loc = s.loc + delta * code_align;
                        if new_loc >= 0x1_0000_0000_0000_0000 {
                            None
                        } else if target matches Some(t) && new_loc > t {
                            Some(SpecVm { end: Some(new_loc), ..s })
                        } else {
                            spec_run(
                                data,
                                end,
                                SpecVm { loc: new_loc, start: new_loc, ..s },
                                code_align,
                                data_align,
                                in_cie,
                                initial,
                                target,
                            )
                        }
                    },
                    CfiInstruction::SetLoc(addr) => if addr < s.loc {
                        None
                    } else if target matches Some(t) && addr > t {
                        Some(SpecVm { end: Some(addr as int), ..s })
                    } else {
                        spec_run(
                            data,
                            end,
                            SpecVm { loc: addr as int, start: addr as int, ..s },
                            code_align,
                            data_align,
                            in_cie,
                            initial,
                            target,
                        )
                    },
                    _ => match spec_apply(s, ins, data_align, in_cie, initial) {
                        None => None,
                        Some(s2) => spec_run(
                            data,
                            end,
                            s2,
                            code_align,
                            data_align,
                            in_cie,
                            initial,
                            target,
                        ),
                    },
                }
            },
        }
    }
}

/// The row in force at `target_pc`, as the two-stream run defines it: the
/// CIE's initial instructions build the base row, whose rules become the
/// `restore` snapshot, then the FDE's instructions run until they pass
/// `target_pc`.  `None` is a fatal decode, application or missing-CFA
/// error.
pub open spec fn spec_compute_row(cie: Cie, fde: Fde, target_pc: u64) -> Option<SpecRow> {
    let s0 = SpecVm {
        loc: fde.initial_location as int,
        start: fde.initial_location as int,
        end: None,
        cfa: None,
        rules: Seq::new(MAX_REG_RULES as nat, |i: int| RegisterRule::Undefined),
        args: 0,
        stack: Seq::empty(),
    };
    match spec_run(
        cie.instructions@,
        0,
        s0,
        cie.code_align as int,
        cie.data_align,
        true,
        s0.rules,
        None,
    ) {
        None => None,
        Some(s1) => match spec_run(
            fde.instructions@,
            0,
            s1,
            cie.code_align as int,
            cie.data_align,
            false,
            s1.rules,
            Some(target_pc as int),
        ) {
            None => None,
            Some(s2) => match s2.cfa {
                None => None,
                Some(cfa) => Some(
                    SpecRow {
                        start: s2.start,
                        end: match s2.end {
                            Some(e) => e,
                            None => fde.initial_location + fde.address_range,
                        },
                        cfa,
                        rules: s2.rules,
                        args: s2.args,
                    },
                ),
            },
        },
    }
}

/// Applies one non-location instruction to the executable state.
fn apply_instruction(
    s: &mut VmState,
    ins: CfiInstruction,
    data_align: i64,
    in_cie: bool,
    initial: &Vec<RegisterRule>,
) -> (ok: bool)
    requires
        old(s).wf(),
        initial.len() == MAX_REG_RULES,
    ensures
        match spec_apply(old(s)@, ins, data_align, in_cie, initial@) {
            Some(s2) => ok && final(s)@ == s2 && final(s).wf(),
            None => !ok,
        },
{
    match ins {
        CfiInstruction::Offset(r, off) => {
            if r as usize >= MAX_REG_RULES {
                return false;
            }
            match mul_factor_u(off, data_align) {
                Some(f) => {
                    s.rules.set(r as usize, RegisterRule::Offset(f));
                    true
                },
                None => false,
            }
        },
        CfiInstruction::OffsetSf(r, off) => {
            if r as usize >= MAX_REG_RULES {
                return false;
            }
            match mul_factor_s(off, data_align) {
                Some(f) => {
                    s.rules.set(r as usize, RegisterRule::Offset(f));
                    true
                },
                None => false,
            }
        },
        CfiInstruction::ValOffset(r, off) => {
            if r as usize >= MAX_REG_RULES {
                return false;
            }
            match mul_factor_u(off, data_align) {
                Some(f) => {
                    s.rules.set(r as usize, RegisterRule::ValOffset(f));
                    true
                },
                None => false,
            }
        },
        CfiInstruction::ValOffsetSf(r, off) => {
            if r as usize >= MAX_REG_RULES {
                return false;
            }
            match mul_factor_s(off, data_align) {
                Some(f) => {
                    s.rules.set(r as usize, RegisterRule::ValOffset(f));
                    true
                },
                None => false,
            }
        },
        CfiInstruction::Restore(r) => {
            if r as usize >= MAX_REG_RULES || in_cie {
                return false;
            }
            s.rules.set(r as usize, initial[r as usize]);
            true
        },
        CfiInstruction::Undefined(r) => {
            if r as usize >= MAX_REG_RULES {
                return false;
            }
            s.rules.set(r as usize, RegisterRule::Undefined);
            true
        },
        CfiInstruction::SameValue(r) => {
            if r as usize >= MAX_REG_RULES {
                return false;
            }
            s.rules.set(r as usize, RegisterRule::SameValue);
            true
        },
        CfiInstruction::Register(t, src) => {
            if t as usize >= MAX_REG_RULES {
                return false;
            }
            s.rules.set(t as usize, RegisterRule::Register(src));
            true
        },
        CfiInstruction::RememberState => {
            if s.stack.len() >= STATE_STACK_DEPTH {
                return false;
            }
            let saved = s.rules.clone();
            proof {
                assert(saved@ =~= s.rules@);
            }
            s.stack.push((s.cfa, saved));
            proof {
                assert(s@.stack =~= old(s)@.stack.push((old(s)@.cfa, old(s)@.rules)));
            }
            true
        },
        CfiInstruction::RestoreState => {
            match s.stack.pop() {
                Some((cfa, rules)) => {
                    s.cfa = cfa;
                    s.rules = rules;
                    proof {
                        assert(s@.stack =~= old(s)@.stack.drop_last());
                    }
                    true
                },
                None => false,
            }
        },
        CfiInstruction::DefCfa(r, off) => {
            if off <= 0x7fff_ffff_ffff_ffff {
                s.cfa = Some(CfaRule::RegisterOffset(r, off as i64));
                true
            } else {
                false
            }
        },
        CfiInstruction::DefCfaSf(r, off) => {
            match mul_factor_s(off, data_align) {
                Some(f) => {
                    s.cfa = Some(CfaRule::RegisterOffset(r, f));
                    true
                },
                None => false,
            }
        },
        CfiInstruction::DefCfaRegister(r) => {
            match s.cfa {
                Some(CfaRule::RegisterOffset(_old_r, off)) => {
                    s.cfa = Some(CfaRule::RegisterOffset(r, off));
                    true
                },
                _ => false,
            }
        },
        CfiInstruction::DefCfaOffset(off) => {
            if off <= 0x7fff_ffff_ffff_ffff {
                match s.cfa {
                    Some(CfaRule::RegisterOffset(r, _old_off)) => {
                        s.cfa = Some(CfaRule::RegisterOffset(r, off as i64));
                        true
                    },
                    _ => false,
                }
            } else {
                false
            }
        },
        CfiInstruction::DefCfaOffsetSf(off) => {
            match mul_factor_s(off, data_align) {
                Some(f) => match s.cfa {
                    Some(CfaRule::RegisterOffset(r, _old_off)) => {
                        s.cfa = Some(CfaRule::RegisterOffset(r, f));
                        true
                    },
                    _ => false,
                },
                None => false,
            }
        },
        CfiInstruction::DefCfaExpression(ex) => {
            s.cfa = Some(CfaRule::Expression(ex));
            true
        },
        CfiInstruction::Expression(r, ex) => {
            if r as usize >= MAX_REG_RULES {
                return false;
            }
            s.rules.set(r as usize, RegisterRule::Expression(ex));
            true
        },
        CfiInstruction::ValExpression(r, ex) => {
            if r as usize >= MAX_REG_RULES {
                return false;
            }
            s.rules.set(r as usize, RegisterRule::ValExpression(ex));
            true
        },
        CfiInstruction::ArgsSize(n) => {
            s.args = n;
            true
        },
        CfiInstruction::Nop => true,
        CfiInstruction::AdvanceLoc(_) => true,
        CfiInstruction::SetLoc(_) => true,
    }
}

/// Runs one instruction stream to completion or to the halt past `target`.
#[verifier::loop_isolation(false)]
#[verifier::rlimit(80)]
fn run_stream(
    s: &mut VmState,
    data: &[u8],
    code_align: u64,
    data_align: i64,
    in_cie: bool,
    initial: &Vec<RegisterRule>,
    target: Option<u64>,
) -> (ok: bool)
    requires
        old(s).wf(),
        old(s)@.end is None,
        initial.len() == MAX_REG_RULES,
        code_align >= 1,
    ensures
        match spec_run(
            data@,
            0,
            old(s)@,
            code_align as int,
            data_align,
            in_cie,
            initial@,
            match target {
                Some(t) => Some(t as int),
                None => None,
            },
        ) {
            Some(s2) => ok && final(s)@ == s2 && final(s).wf(),
            None => !ok,
        },
        ok && target is None ==> final(s)@.end is None,
{
    let ghost spec_target: Option<int> = match target {
        Some(t) => Some(t as int),
        None => None,
    };
    let ghost goal = spec_run(
        data@,
        0,
        s@,
        code_align as int,
        data_align,
        in_cie,
        initial@,
        spec_target,
    );
    let mut pos: usize = 0;
    loop
        invariant
            s.wf(),
            s@.end is None,
            pos <= data@.len(),
            spec_run(
                data@,
                pos as int,
                s@,
                code_align as int,
                data_align,
                in_cie,
                initial@,
                spec_target,
            ) == goal,
        decreases data@.len() - pos,
    {
        if pos >= data.len() {
            return true;
        }
        match decode_instruction(data, pos, in_cie) {
            None => {
                return false;
            },
            Some((ins, end)) => {
                match ins {
                    CfiInstruction::AdvanceLoc(delta) => {
                        proof {
                            assert(0 <= delta * code_align <= 0xffff_ffff_ffff_ffff
                                * 0xffff_ffff_ffff_ffff) by (nonlinear_arith)
                                requires
                                    0 <= delta <= 0xffff_ffff_ffff_ffff,
                                    0 <= code_align <= 0xffff_ffff_ffff_ffff,
                            ;
                        }
                        let wide: u128 = s.loc as u128 + delta as u128 * code_align as u128;
                        if wide >= 0x1_0000_0000_0000_0000u128 {
                            return false;
                        }
                        let new_loc = wide as u64;
                        match target {
                            Some(t) if new_loc > t => {
                                s.end = Some(new_loc);
                                return true;
                            },
                            _ => {
                                s.loc = new_loc;
                                s.start = new_loc;
                            },
                        }
                    },
                    CfiInstruction::SetLoc(addr) => {
                        if addr < s.loc {
                            return false;
                        }
                        match target {
                            Some(t) if addr > t => {
                                s.end = Some(addr);
                                return true;
                            },
                            _ => {
                                s.loc = addr;
                                s.start = addr;
                            },
                        }
                    },
                    _ => {
                        let ok = apply_instruction(s, ins, data_align, in_cie, initial);
                        if !ok {
                            return false;
                        }
                    },
                }
                pos = end;
            },
        }
    }
}

/// Computes the unwind table row in force at `target_pc`, which must lie
/// in the FDE's covered range.  `None` is a fatal error in the unwind
/// info: a malformed or unknown instruction, an alignment overflow, a
/// state-stack fault, or a row with no CFA definition.
pub fn compute_row(cie: &Cie, fde: &Fde, target_pc: u64) -> (r: Option<Row>)
    requires
        cie.wf(),
        fde.wf(),
        fde.spec_covers(target_pc),
    ensures
        match spec_compute_row(*cie, *fde, target_pc) {
            Some(sr) => r matches Some(row) && row@ == sr && row.wf(),
            None => r is None,
        },
{
    let mut rules: Vec<RegisterRule> = Vec::new();
    let mut i: usize = 0;
    while i < MAX_REG_RULES
        invariant
            i <= MAX_REG_RULES,
            rules.len() == i,
            forall|j: int| 0 <= j < i ==> rules[j] == RegisterRule::Undefined,
        decreases MAX_REG_RULES - i,
    {
        rules.push(RegisterRule::Undefined);
        i += 1;
    }
    proof {
        assert(rules@ =~= Seq::new(MAX_REG_RULES as nat, |j: int| RegisterRule::Undefined));
    }
    let initial_snapshot = rules.clone();
    proof {
        assert(initial_snapshot@ =~= rules@);
    }
    let mut s = VmState {
        loc: fde.initial_location,
        start: fde.initial_location,
        end: None,
        cfa: None,
        rules,
        args: 0,
        stack: Vec::new(),
    };
    proof {
        assert(s@.stack =~= Seq::<(Option<CfaRule>, Seq<RegisterRule>)>::empty());
    }
    let ok1 = run_stream(
        &mut s,
        cie.instructions.as_slice(),
        cie.code_align,
        cie.data_align,
        true,
        &initial_snapshot,
        None,
    );
    if !ok1 {
        return None;
    }
    let base_rules = s.rules.clone();
    proof {
        assert(base_rules@ =~= s.rules@);
    }
    let ok2 = run_stream(
        &mut s,
        fde.instructions.as_slice(),
        cie.code_align,
        cie.data_align,
        false,
        &base_rules,
        Some(target_pc),
    );
    if !ok2 {
        return None;
    }
    match s.cfa {
        None => None,
        Some(cfa) => {
            let end = match s.end {
                Some(e) => e,
                None => fde.initial_location + fde.address_range,
            };
            Some(Row { start: s.start, end, cfa, rules: s.rules, args_size: s.args })
        },
    }
}

} // verus!
