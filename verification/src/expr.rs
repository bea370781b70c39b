//! The DWARF expression evaluator: a little stack machine over
//! machine-word values, with a fixed step budget.  Exhausting the budget,
//! underflowing the stack, dereferencing outside the memory image or
//! meeting an unknown opcode is fatal.

use vstd::prelude::*;
use crate::arch::{Context, ADDRESSABLE_REGS};
use crate::bytes::{spec_le, read_u16_le, read_u32_le, read_u64_le};
use crate::leb::{spec_uleb, spec_sleb, read_uleb128, read_sleb128};
use crate::mem::Memory;
use vstd::wrapping::u64_specs;

verus! {

/// Steps an expression may take before evaluation is declared runaway.
pub const EXPR_STEP_BUDGET: usize = 1024;

/// A signed word reinterpreted as an unsigned machine word.
pub open spec fn to_u64_wrap(v: i64) -> u64 {
    if v < 0 {
        (v + 0x1_0000_0000_0000_0000) as u64
    } else {
        v as u64
    }
}

/// One operator applied to the operand stack: the new stack and the
/// position past the operator, or `None` on any fault.
pub open spec fn spec_step(data: Seq<u8>, pos: int, st: Seq<u64>, ctx: Context, mem: Memory) -> Option<
    (Seq<u64>, int),
> {
    if pos < 0 || pos >= data.len() {
        None
    } else {
        let op = data[pos];
        let p = pos + 1;
        let n = st.len() as int;
        if op == 0x03 {
            if p + 8 <= data.len() {
                Some((st.push(spec_le(data, p, 8) as u64), p + 8))
            } else {
                None
            }
        } else if op == 0x06 {
            if n >= 1 {
                match mem.spec_read_u64(st.last()) {
                    Some(v) => Some((st.update(n - 1, v), p)),
                    None => None,
                }
            } else {
                None
            }
        } else if op == 0x08 {
            if p + 1 <= data.len() {
                Some((st.push(data[p] as u64), p + 1))
            } else {
                None
            }
        } else if op == 0x09 {
            if p + 1 <= data.len() {
                let b = data[p];
                let v: u64 = if b >= 0x80 {
                    (b + 0xffff_ffff_ffff_ff00) as u64
                } else {
                    b as u64
                };
                Some((st.push(v), p + 1))
            } else {
                None
            }
        } else if op == 0x0a {
            if p + 2 <= data.len() {
                Some((st.push(spec_le(data, p, 2) as u64), p + 2))
            } else {
                None
            }
        } else if op == 0x0b {
            if p + 2 <= data.len() {
                let w = spec_le(data, p, 2);
                let v: u64 = if w >= 0x8000 {
                    (w + 0xffff_ffff_ffff_0000) as u64
                } else {
                    w as u64
                };
                Some((st.push(v), p + 2))
            } else {
                None
            }
        } else if op == 0x0c {
            if p + 4 <= data.len() {
                Some((st.push(spec_le(data, p, 4) as u64), p + 4))
            } else {
                None
            }
        } else if op == 0x0d {
            if p + 4 <= data.len() {
                let w = spec_le(data, p, 4);
                let v: u64 = if w >= 0x8000_0000 {
                    (w + 0xffff_ffff_0000_0000) as u64
                } else {
                    w as u64
                };
                Some((st.push(v), p + 4))
            } else {
                None
            }
        } else if op == 0x0e || op == 0x0f {
            if p + 8 <= data.len() {
                Some((st.push(spec_le(data, p, 8) as u64), p + 8))
            } else {
                None
            }
        } else if op == 0x10 {
            match spec_uleb(data, p) {
                Some((v, e)) => if v < 0x1_0000_0000_0000_0000 {
                    Some((st.push(v as u64), e))
                } else {
                    None
                },
                None => None,
            }
        } else if op == 0x11 {
            match spec_sleb(data, p) {
                Some((v, e)) => if -0x8000_0000_0000_0000 <= v < 0x8000_0000_0000_0000 {
                    Some((st.push(to_u64_wrap(v as i64)), e))
                } else {
                    None
                },
                None => None,
            }
        } else if op == 0x12 {
            if n >= 1 {
                Some((st.push(st.last()), p))
            } else {
                None
            }
        } else if op == 0x13 {
            if n >= 1 {
                Some((st.drop_last(), p))
            } else {
                None
            }
        } else if op == 0x14 {
            if n >= 2 {
                Some((st.push(st[n - 2]), p))
            } else {
                None
            }
        } else if op == 0x16 {
            if n >= 2 {
                Some((st.update(n - 1, st[n - 2]).update(n - 2, st[n - 1]), p))
            } else {
                None
            }
        } else if op == 0x1a {
            if n >= 2 {
                Some((st.drop_last().update(n - 2, st[n - 2] & st[n - 1]), p))
            } else {
                None
            }
        } else if op == 0x1c {
            if n >= 2 {
                Some((st.drop_last().update(n - 2, u64_specs::wrapping_sub(st[n - 2], st[n - 1])), p))
            } else {
                None
            }
        } else if op == 0x1e {
            if n >= 2 {
                Some((st.drop_last().update(n - 2, u64_specs::wrapping_mul(st[n - 2], st[n - 1])), p))
            } else {
                None
            }
        } else if op == 0x21 {
            if n >= 2 {
                Some((st.drop_last().update(n - 2, st[n - 2] | st[n - 1]), p))
            } else {
                None
            }
        } else if op == 0x22 {
            if n >= 2 {
                Some((st.drop_last().update(n - 2, u64_specs::wrapping_add(st[n - 2], st[n - 1])), p))
            } else {
                None
            }
        } else if op == 0x23 {
            match spec_uleb(data, p) {
                Some((c, e)) => if c < 0x1_0000_0000_0000_0000 && n >= 1 {
                    Some((st.update(n - 1, u64_specs::wrapping_add(st[n - 1], c as u64)), e))
                } else {
                    None
                },
                None => None,
            }
        } else if op == 0x24 {
            if n >= 2 {
                let sh = st[n - 1];
                let v: u64 = if sh >= 64 {
                    0
                } else {
                    st[n - 2] << sh
                };
                Some((st.drop_last().update(n - 2, v), p))
            } else {
                None
            }
        } else if op == 0x25 {
            if n >= 2 {
                let sh = st[n - 1];
                let v: u64 = if sh >= 64 {
                    0
                } else {
                    st[n - 2] >> sh
                };
                Some((st.drop_last().update(n - 2, v), p))
            } else {
                None
            }
        } else if op == 0x27 {
            if n >= 2 {
                Some((st.drop_last().update(n - 2, st[n - 2] ^ st[n - 1]), p))
            } else {
                None
            }
        } else if 0x30 <= op <= 0x4f {
            Some((st.push((op - 0x30) as u64), p))
        } else if 0x70 <= op <= 0x8f {
            match spec_sleb(data, p) {
                Some((off, e)) => if -0x8000_0000_0000_0000 <= off < 0x8000_0000_0000_0000 {
                    Some(
                        (
                            st.push(
                                u64_specs::wrapping_add_signed(
                                    ctx.spec_reg((op - 0x70) as int),
                                    off as i64,
                                ),
                            ),
                            e,
                        ),
                    )
                } else {
                    None
                },
                None => None,
            }
        } else if op == 0x92 {
            match spec_uleb(data, p) {
                Some((r, e1)) => if r < ADDRESSABLE_REGS {
                    match spec_sleb(data, e1) {
                        Some((off, e2)) => if -0x8000_0000_0000_0000 <= off
                            < 0x8000_0000_0000_0000 {
                            Some(
                                (
                                    st.push(
                                        u64_specs::wrapping_add_signed(
                                            ctx.spec_reg(r as int),
                                            off as i64,
                                        ),
                                    ),
                                    e2,
                                ),
                            )
                        } else {
                            None
                        },
                        None => None,
                    }
                } else {
                    None
                },
                None => None,
            }
        } else {
            None
        }
    }
}

/// The value of the expression from `pos` on, with `budget` steps left:
/// the top of the stack once the stream is exhausted.
pub open spec fn spec_eval(
    data: Seq<u8>,
    pos: int,
    st: Seq<u64>,
    ctx: Context,
    mem: Memory,
    budget: nat,
) -> Option<u64>
    decreases budget,
{
    if pos == data.len() {
        if st.len() >= 1 {
            Some(st.last())
        } else {
            None
        }
    } else if budget == 0 {
        None
    } else {
        match spec_step(data, pos, st, ctx, mem) {
            None => None,
            Some((st2, p2)) => if p2 <= pos || p2 > data.len() {
                None
            } else {
                spec_eval(data, p2, st2, ctx, mem, (budget - 1) as nat)
            },
        }
    }
}

/// The value of a whole expression, evaluated over a register snapshot and
/// the memory image, with the standard step budget; `seed` is the value the
/// engine pre-loads on the stack (the CFA, for register-rule expressions).
pub open spec fn spec_eval_expr(data: Seq<u8>, ctx: Context, mem: Memory, seed: Option<u64>) -> Option<
    u64,
> {
    let st0: Seq<u64> = match seed {
        Some(s) => seq![s],
        None => Seq::empty(),
    };
    spec_eval(data, 0, st0, ctx, mem, EXPR_STEP_BUDGET as nat)
}

/// Applies one operator to the executable stack.  Returns the position
/// past the operator, or `None` on the faults `spec_step` names.
#[verifier::rlimit(100)]
fn eval_step(data: &[u8], pos: usize, st: &mut Vec<u64>, ctx: &Context, mem: &Memory) -> (r: Option<
    usize,
>)
    requires
        ctx.wf(),
        mem.wf(),
    ensures
        match spec_step(data@, pos as int, old(st)@, *ctx, *mem) {
            Some((st2, p2)) => r matches Some(p) && p == p2 && final(st)@ =~= st2,
            None => r is None,
        },
        r matches Some(p) ==> pos < p <= data@.len(),
{
    if pos >= data.len() {
        return None;
    }
    let op = data[pos];
    let p = pos + 1;
    let n = st.len();
    if op == 0x03 || op == 0x0e || op == 0x0f {
        match read_u64_le(data, p) {
            Some((v, e)) => {
                st.push(v);
                Some(e)
            },
            None => None,
        }
    } else if op == 0x06 {
        if n >= 1 {
            let a = st[n - 1];
            match mem.read_u64(a) {
                Some(v) => {
                    st.set(n - 1, v);
                    Some(p)
                },
                None => None,
            }
        } else {
            None
        }
    } else if op == 0x08 {
        if p < data.len() {
            st.push(data[p] as u64);
            Some(p + 1)
        } else {
            None
        }
    } else if op == 0x09 {
        if p < data.len() {
            let b = data[p];
            let v: u64 = if b >= 0x80 {
                b as u64 + 0xffff_ffff_ffff_ff00
            } else {
                b as u64
            };
            st.push(v);
            Some(p + 1)
        } else {
            None
        }
    } else if op == 0x0a {
        match read_u16_le(data, p) {
            Some((v, e)) => {
                st.push(v);
                Some(e)
            },
            None => None,
        }
    } else if op == 0x0b {
        match read_u16_le(data, p) {
            Some((w, e)) => {
                let v: u64 = if w >= 0x8000 {
                    w + 0xffff_ffff_ffff_0000
                } else {
                    w
                };
                st.push(v);
                Some(e)
            },
            None => None,
        }
    } else if op == 0x0c {
        match read_u32_le(data, p) {
            Some((v, e)) => {
                st.push(v);
                Some(e)
            },
            None => None,
        }
    } else if op == 0x0d {
        match read_u32_le(data, p) {
            Some((w, e)) => {
                let v: u64 = if w >= 0x8000_0000 {
                    w + 0xffff_ffff_0000_0000
                } else {
                    w
                };
                st.push(v);
                Some(e)
            },
            None => None,
        }
    } else if op == 0x10 {
        match read_uleb128(data, p) {
            Some((v, e)) => {
                st.push(v);
                Some(e)
            },
            None => None,
        }
    } else if op == 0x11 {
        match read_sleb128(data, p) {
            Some((v, e)) => {
                let u: u64 = if v < 0 {
                    (v + 0x7fff_ffff_ffff_ffff + 1) as u64 + 0x8000_0000_0000_0000
                } else {
                    v as u64
                };
                st.push(u);
                Some(e)
            },
            None => None,
        }
    } else if op == 0x12 {
        if n >= 1 {
            let a = st[n - 1];
            st.push(a);
            Some(p)
        } else {
            None
        }
    } else if op == 0x13 {
        if n >= 1 {
            let _ = st.pop();
            Some(p)
        } else {
            None
        }
    } else if op == 0x14 {
        if n >= 2 {
            let a = st[n - 2];
            st.push(a);
            Some(p)
        } else {
            None
        }
    } else if op == 0x16 {
        if n >= 2 {
            let a = st[n - 1];
            let b = st[n - 2];
            st.set(n - 1, b);
            st.set(n - 2, a);
            Some(p)
        } else {
            None
        }
    } else if op == 0x1a || op == 0x1c || op == 0x1e || op == 0x21 || op == 0x22 || op == 0x27 {
        if n >= 2 {
            let b = st[n - 1];
            let a = st[n - 2];
            let v: u64 = if op == 0x1a {
                a & b
            } else if op == 0x1c {
                a.wrapping_sub(b)
            } else if op == 0x1e {
                a.wrapping_mul(b)
            } else if op == 0x21 {
                a | b
            } else if op == 0x22 {
                a.wrapping_add(b)
            } else {
                a ^ b
            };
            let _ = st.pop();
            st.set(n - 2, v);
            Some(p)
        } else {
            None
        }
    } else if op == 0x23 {
        match read_uleb128(data, p) {
            Some((c, e)) => {
                if n >= 1 {
                    let a = st[n - 1];
                    st.set(n - 1, a.wrapping_add(c));
                    Some(e)
                } else {
                    None
                }
            },
            None => None,
        }
    } else if op == 0x24 || op == 0x25 {
        if n >= 2 {
            let sh = st[n - 1];
            let a = st[n - 2];
            let v: u64 = if sh >= 64 {
                0
            } else if op == 0x24 {
                a << sh
            } else {
                a >> sh
            };
            let _ = st.pop();
            st.set(n - 2, v);
            Some(p)
        } else {
            None
        }
    } else if 0x30 <= op && op <= 0x4f {
        st.push((op - 0x30) as u64);
        Some(p)
    } else if 0x70 <= op && op <= 0x8f {
        match read_sleb128(data, p) {
            Some((off, e)) => {
                let base = ctx.reg((op - 0x70) as u16);
                st.push(base.wrapping_add_signed(off));
                Some(e)
            },
            None => None,
        }
    } else if op == 0x92 {
        match read_uleb128(data, p) {
            Some((r, e1)) => {
                if r < ADDRESSABLE_REGS as u64 {
                    match read_sleb128(data, e1) {
                        Some((off, e2)) => {
                            let base = ctx.reg(r as u16);
                            st.push(base.wrapping_add_signed(off));
                            Some(e2)
                        },
                        None => None,
                    }
                } else {
                    None
                }
            },
            None => None,
        }
    } else {
        None
    }
}

/// Evaluates a whole expression.  `seed` is pre-loaded on the operand
/// stack; register-rule expressions receive the CFA this way.
#[verifier::loop_isolation(false)]
pub fn eval_expr(data: &[u8], ctx: &Context, mem: &Memory, seed: Option<u64>) -> (r: Option<u64>)
    requires
        ctx.wf(),
        mem.wf(),
    ensures
        r == spec_eval_expr(data@, *ctx, *mem, seed),
{
    let mut st: Vec<u64> = Vec::new();
    match seed {
        Some(s) => {
            st.push(s);
            proof {
                assert(st@ =~= seq![s]);
            }
        },
        None => {
            proof {
                assert(st@ =~= Seq::<u64>::empty());
            }
        },
    }
    let ghost goal = spec_eval(data@, 0, st@, *ctx, *mem, EXPR_STEP_BUDGET as nat);
    let mut pos: usize = 0;
    let mut budget: usize = EXPR_STEP_BUDGET;
    loop
        invariant
            ctx.wf(),
            mem.wf(),
            pos <= data@.len(),
            spec_eval(data@, pos as int, st@, *ctx, *mem, budget as nat) == goal,
        decreases budget,
    {
        if pos >= data.len() {
            if st.len() >= 1 {
                return Some(st[st.len() - 1]);
            } else {
                return None;
            }
        }
        if budget == 0 {
            return None;
        }
        match eval_step(data, pos, &mut st, ctx, mem) {
            None => {
                return None;
            },
            Some(p2) => {
                pos = p2;
                budget = budget - 1;
            },
        }
    }
}

} // verus!
