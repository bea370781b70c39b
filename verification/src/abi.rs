//! The Itanium unwind ABI engine: the two-phase search/cleanup protocol,
//! the forced-unwind and resume entry points, the backtrace walk, and the
//! accessor surface personality routines see.
//!
//! Every engine entry point returns a ghost log of its personality
//! invocations — frame CFA, action set, exception class, verdict and the
//! snapshot the callback left, innermost first — so the protocol's
//! guarantees (each frame seen once, the handler frame flagged exactly at
//! the recorded CFA, control transferred with exactly the snapshot the
//! installing callback wrote) are stated and proved over it.
//!
//! The engine holds no global state: the registry, the memory image and
//! the callbacks are arguments of every entry point, so a personality may
//! raise a fresh exception during a cleanup and the nested raise is an
//! independent call that cannot disturb the outer one's object.

use vstd::prelude::*;
use crate::arch::{Context, ADDRESSABLE_REGS};
use crate::mem::Memory;
use crate::registry::ObjectRegistry;
use crate::walker::{StepResult, spec_lookup_pc, step};

verus! {

/// The reason codes of the unwind ABI.
#[derive(Clone, Copy, PartialEq, Eq, Structural, Debug)]
pub enum ReasonCode {
    NoReason,
    ForeignExceptionCaught,
    FatalPhase2Error,
    FatalPhase1Error,
    NormalStop,
    EndOfStack,
    HandlerFound,
    InstallContext,
    ContinueUnwind,
}

impl ReasonCode {
    /// The integer each code travels as across the ABI boundary.
    pub fn as_int(&self) -> (r: u64)
        ensures
            r == (match *self {
                ReasonCode::NoReason => 0u64,
                ReasonCode::ForeignExceptionCaught => 1u64,
                ReasonCode::FatalPhase2Error => 2u64,
                ReasonCode::FatalPhase1Error => 3u64,
                ReasonCode::NormalStop => 4u64,
                ReasonCode::EndOfStack => 5u64,
                ReasonCode::HandlerFound => 6u64,
                ReasonCode::InstallContext => 7u64,
                ReasonCode::ContinueUnwind => 8u64,
            }),
    {
        match *self {
            ReasonCode::NoReason => 0,
            ReasonCode::ForeignExceptionCaught => 1,
            ReasonCode::FatalPhase2Error => 2,
            ReasonCode::FatalPhase1Error => 3,
            ReasonCode::NormalStop => 4,
            ReasonCode::EndOfStack => 5,
            ReasonCode::HandlerFound => 6,
            ReasonCode::InstallContext => 7,
            ReasonCode::ContinueUnwind => 8,
        }
    }
}

/// Action bits passed to personality routines.
pub const UA_SEARCH_PHASE: u32 = 1;

pub const UA_CLEANUP_PHASE: u32 = 2;

pub const UA_HANDLER_FRAME: u32 = 4;

pub const UA_FORCE_UNWIND: u32 = 8;

/// Reserved bit of the ABI's action set, with which some hosts signal the
/// stop callback of a forced unwind that the stack is exhausted.  This
/// engine never sets it: a forced unwind that runs out of frames has no
/// frame left to build a cursor from, so it reports `EndOfStack` to its
/// caller instead of making a final stop call.
pub const UA_END_OF_STACK: u32 = 16;

/// Personality callback interface version.
pub const UNWIND_VERSION: u32 = 1;

/// The exception header visible across the ABI boundary.  The two private
/// words belong to the engine: the first records the handler frame's CFA
/// between the phases, the second is reserved.  The host language's
/// payload and cleanup callback live outside this header.
pub struct ExceptionObject {
    pub exception_class: u64,
    pub private_1: u64,
    pub private_2: u64,
}

/// The view of one frame the engine hands a personality routine: the
/// frame's register snapshot and the metadata its records carry.  The
/// personality installs a landing pad by writing the snapshot through the
/// accessors and returning `InstallContext`.
pub struct UnwindCursor {
    pub ctx: Context,
    pub cfa: u64,
    pub lsda: u64,
    pub region_start: u64,
    pub signal_frame: bool,
    pub text_base: u64,
}

impl UnwindCursor {
    pub open spec fn wf(self) -> bool {
        self.ctx.wf()
    }

    /// The frame's instruction pointer.
    pub fn get_ip(&self) -> (r: u64)
        ensures
            r == self.ctx.pc,
    {
        self.ctx.pc
    }

    /// Redirects the frame to `ip` — the landing pad, when installing.
    pub fn set_ip(&mut self, ip: u64)
        ensures
            final(self).ctx.pc == ip,
            final(self).ctx.wf() == old(self).ctx.wf(),
            forall|t: int|
                0 <= t < ADDRESSABLE_REGS ==> final(self).ctx.spec_reg(t) == old(
                    self,
                ).ctx.spec_reg(t),
            final(self).cfa == old(self).cfa,
            final(self).lsda == old(self).lsda,
            final(self).region_start == old(self).region_start,
            final(self).signal_frame == old(self).signal_frame,
            final(self).text_base == old(self).text_base,
    {
        self.ctx.pc = ip;
    }

    /// The frame's canonical frame address.
    pub fn get_cfa(&self) -> (r: u64)
        ensures
            r == self.cfa,
    {
        self.cfa
    }

    /// Reads general register `n` of the frame's snapshot.
    pub fn get_gr(&self, n: u16) -> (r: u64)
        requires
            self.wf(),
            n < ADDRESSABLE_REGS,
        ensures
            r == self.ctx.spec_reg(n as int),
    {
        self.ctx.reg(n)
    }

    /// Writes general register `n` of the frame's snapshot — the argument
    /// registers, when installing a landing pad.
    pub fn set_gr(&mut self, n: u16, v: u64)
        requires
            old(self).wf(),
            n < ADDRESSABLE_REGS,
        ensures
            final(self).wf(),
            final(self).ctx.spec_reg(n as int) == v,
            forall|t: int|
                0 <= t < ADDRESSABLE_REGS && t != n ==> final(self).ctx.spec_reg(t) == old(
                    self,
                ).ctx.spec_reg(t),
            final(self).ctx.pc == old(self).ctx.pc,
            final(self).cfa == old(self).cfa,
            final(self).lsda == old(self).lsda,
    {
        self.ctx.set_reg(n, v);
    }

    /// The frame's language-specific data area, zero when absent.
    pub fn get_language_specific_data(&self) -> (r: u64)
        ensures
            r == self.lsda,
    {
        self.lsda
    }

    /// First code address of the frame's function.
    pub fn get_region_start(&self) -> (r: u64)
        ensures
            r == self.region_start,
    {
        self.region_start
    }

    /// The text-relative base of the frame's object.
    pub fn get_text_rel_base(&self) -> (r: u64)
        ensures
            r == self.text_base,
    {
        self.text_base
    }

    /// The data-relative base.  This engine models no data segment, so the
    /// base is the zero address.
    pub fn get_data_rel_base(&self) -> (r: u64)
        ensures
            r == 0,
    {
        0
    }

    /// The instruction pointer together with whether it points past the
    /// instruction of interest: true for every ordinary frame, whose
    /// snapshot holds a return address, false for a signal frame.
    pub fn get_ip_info(&self) -> (r: (u64, bool))
        ensures
            r.0 == self.ctx.pc,
            r.1 == !self.signal_frame,
    {
        (self.ctx.pc, !self.signal_frame)
    }
}

/// One personality invocation, as the ghost logs record it: the frame's
/// CFA, the action bits and exception class handed over, the verdict that
/// came back, and the frame snapshot as the callback left it.
pub ghost struct PersonalityCall {
    pub cfa: u64,
    pub actions: u32,
    pub class: u64,
    pub verdict: ReasonCode,
    pub installed: Context,
}

/// The host language's per-frame callback.  The engine knows nothing of
/// its behaviour beyond the returned reason code, and proves its own
/// guarantees for every possible return.
pub trait Personality {
    /// Called once per frame and phase with the action set, the exception's
    /// class and header, and the frame's cursor.
    fn personality(
        &mut self,
        version: u32,
        actions: u32,
        exception_class: u64,
        exception: &ExceptionObject,
        cursor: &mut UnwindCursor,
    ) -> ReasonCode;
}

/// The stop callback of a forced unwind, consulted before each frame's
/// personality.
pub trait StopFn {
    fn stop(
        &mut self,
        version: u32,
        actions: u32,
        exception_class: u64,
        exception: &ExceptionObject,
        cursor: &mut UnwindCursor,
    ) -> ReasonCode;
}

/// The per-frame callback of a backtrace.  A non-zero return stops the
/// walk.
pub trait TraceFn {
    fn trace(&mut self, cursor: &UnwindCursor) -> u64;
}

/// How an engine entry point ended: either control is to be transferred
/// to the snapshot a personality installed — the host feeds it to the
/// architecture's restore routine, which does not return — or the raise
/// failed with a reason code for the caller (or, in phase 2, for the
/// host's abort hook).
pub enum UnwindOutcome {
    Transfer(Context),
    Error(ReasonCode),
}

/// Every call the log records carries exactly the given action bits
/// besides the handler-frame flag, and flags the handler frame exactly at
/// the recorded CFA; successive calls climb the stack strictly.
pub open spec fn spec_phase2_log_ok(
    log: Seq<PersonalityCall>,
    base_actions: u32,
    handler_cfa: u64,
) -> bool {
    &&& forall|k: int|
        0 <= k < log.len() ==> ((#[trigger] log[k]).actions == base_actions || log[k].actions
            == base_actions | UA_HANDLER_FRAME)
    &&& forall|k: int|
        0 <= k < log.len() ==> (((#[trigger] log[k]).actions & UA_HANDLER_FRAME) != 0 <==> log[k].cfa
            == handler_cfa)
    &&& forall|k1: int, k2: int|
        0 <= k1 < k2 < log.len() ==> (#[trigger] log[k1]).cfa < (#[trigger] log[k2]).cfa
}

/// No registered record covers a walk's first lookup from `ctx`: with a
/// zero program counter there is nothing to look up, otherwise the first
/// lookup address is uncovered.  Such a walk ends before any callback
/// runs, and its outcome is fixed by the inputs alone.
pub open spec fn spec_no_first_record(reg: ObjectRegistry, ctx: Context) -> bool {
    ctx.pc == 0 || !reg.spec_has_fde(spec_lookup_pc(ctx, false))
}

/// What phase 1 guarantees: only `private_1` may change, and only to the
/// CFA of the last invocation, which is the one — and with the claiming
/// verdict exactly then — when the search succeeds; every earlier verdict
/// let the walk continue; the class travels verbatim; missing unwind info
/// at the first lookup is reported as the end of the stack with no
/// invocation made.
pub open spec fn spec_search_post(
    reg: ObjectRegistry,
    ctx: Context,
    obj0: ExceptionObject,
    obj1: ExceptionObject,
    code: ReasonCode,
    log: Seq<PersonalityCall>,
) -> bool {
    &&& obj1.exception_class == obj0.exception_class
    &&& obj1.private_2 == obj0.private_2
    &&& (code is HandlerFound || code is EndOfStack || code is FatalPhase1Error)
    &&& forall|k: int| 0 <= k < log.len() ==> (#[trigger] log[k]).actions == UA_SEARCH_PHASE
    &&& forall|k1: int, k2: int|
        0 <= k1 < k2 < log.len() ==> (#[trigger] log[k1]).cfa < (#[trigger] log[k2]).cfa
    &&& forall|k: int| 0 <= k < log.len() ==> (#[trigger] log[k]).cfa > ctx.spec_sp()
    &&& forall|k: int| 0 <= k < log.len() ==> (#[trigger] log[k]).class == obj0.exception_class
    &&& forall|k: int|
        0 <= k < log.len() - 1 ==> (#[trigger] log[k]).verdict is ContinueUnwind
    &&& ((code is HandlerFound) <==> (log.len() >= 1 && log.last().verdict is HandlerFound))
    &&& (code is HandlerFound ==> obj1.private_1 == log.last().cfa)
    &&& (!(code is HandlerFound) ==> obj1.private_1 == obj0.private_1)
    &&& (code is EndOfStack ==> forall|k: int|
        0 <= k < log.len() ==> (#[trigger] log[k]).verdict is ContinueUnwind)
    &&& (spec_no_first_record(reg, ctx) ==> code is EndOfStack && log.len() == 0)
}

/// What one phase-2 walk from `ctx` guarantees, against the handler CFA
/// `obj.private_1`: the log invariants of `spec_phase2_log_ok`, the class
/// handed verbatim, every verdict before the last one a continuation,
/// control transferred exactly when the last verdict installed — and then
/// with exactly the snapshot that invocation left in its cursor; any other
/// end is the phase's fatal code, owed outright when the first lookup
/// finds no unwind info (the stack below is already dismantled).
pub open spec fn spec_phase2_post(
    reg: ObjectRegistry,
    ctx: Context,
    obj: ExceptionObject,
    outcome: UnwindOutcome,
    log: Seq<PersonalityCall>,
) -> bool {
    &&& spec_phase2_log_ok(log, UA_CLEANUP_PHASE, obj.private_1)
    &&& forall|k: int| 0 <= k < log.len() ==> (#[trigger] log[k]).cfa > ctx.spec_sp()
    &&& forall|k: int| 0 <= k < log.len() ==> (#[trigger] log[k]).class == obj.exception_class
    &&& forall|k: int|
        0 <= k < log.len() - 1 ==> (#[trigger] log[k]).verdict is ContinueUnwind
    &&& (outcome matches UnwindOutcome::Error(code) ==> code is FatalPhase2Error)
    &&& ((outcome is Transfer) <==> (log.len() >= 1 && log.last().verdict is InstallContext))
    &&& (outcome matches UnwindOutcome::Transfer(c) ==> c == log.last().installed)
    &&& (spec_no_first_record(reg, ctx) ==> (outcome matches UnwindOutcome::Error(code2)
        && code2 is FatalPhase2Error) && log.len() == 0)
}

/// What a whole raise guarantees, over both phase logs.
pub open spec fn spec_raise_post(
    reg: ObjectRegistry,
    ctx: Context,
    obj0: ExceptionObject,
    obj1: ExceptionObject,
    outcome: UnwindOutcome,
    l1: Seq<PersonalityCall>,
    l2: Seq<PersonalityCall>,
) -> bool {
    &&& obj1.exception_class == obj0.exception_class
    &&& obj1.private_2 == obj0.private_2
    &&& (outcome matches UnwindOutcome::Error(code) ==> (code is EndOfStack || code
        is FatalPhase1Error || code is FatalPhase2Error))
    &&& forall|k: int| 0 <= k < l1.len() ==> (#[trigger] l1[k]).actions == UA_SEARCH_PHASE
    &&& forall|k1: int, k2: int|
        0 <= k1 < k2 < l1.len() ==> (#[trigger] l1[k1]).cfa < (#[trigger] l1[k2]).cfa
    &&& forall|k: int| 0 <= k < l1.len() ==> (#[trigger] l1[k]).class == obj0.exception_class
    &&& forall|k: int| 0 <= k < l1.len() - 1 ==> (#[trigger] l1[k]).verdict is ContinueUnwind
    &&& ((outcome matches UnwindOutcome::Error(code) && code is EndOfStack) ==> obj1 == obj0
        && l2.len() == 0 && forall|k: int|
        0 <= k < l1.len() ==> (#[trigger] l1[k]).verdict is ContinueUnwind)
    &&& ((outcome matches UnwindOutcome::Error(code) && code is FatalPhase1Error) ==> l2.len()
        == 0 && obj1.private_1 == obj0.private_1)
    &&& ((outcome is Transfer || (outcome matches UnwindOutcome::Error(code) && code
        is FatalPhase2Error)) ==> {
        &&& l1.len() >= 1
        &&& l1.last().verdict is HandlerFound
        &&& obj1.private_1 == l1.last().cfa
        &&& spec_phase2_log_ok(l2, UA_CLEANUP_PHASE, obj1.private_1)
        &&& forall|k: int| 0 <= k < l2.len() ==> (#[trigger] l2[k]).cfa > ctx.spec_sp()
        &&& forall|k: int| 0 <= k < l2.len() ==> (#[trigger] l2[k]).class
            == obj0.exception_class
        &&& forall|k: int|
            0 <= k < l2.len() - 1 ==> (#[trigger] l2[k]).verdict is ContinueUnwind
    })
    &&& ((outcome is Transfer) <==> (l2.len() >= 1 && l2.last().verdict is InstallContext))
    &&& (outcome matches UnwindOutcome::Transfer(c) ==> c == l2.last().installed)
    &&& (spec_no_first_record(reg, ctx) ==> (outcome matches UnwindOutcome::Error(code)
        && code is EndOfStack) && l1.len() == 0 && l2.len() == 0 && obj1 == obj0)
}

/// Phase 1, the search: walk the frames from `ctx`, asking each
/// personality whether it claims the exception.  Never mutates anything
/// but `obj.private_1`, which on success records the claiming frame's CFA.
#[verifier::loop_isolation(false)]
fn search_phase<P: Personality>(
    reg: &ObjectRegistry,
    mem: &Memory,
    pers: &mut P,
    obj: &mut ExceptionObject,
    ctx: &Context,
) -> (r: (ReasonCode, Ghost<Seq<PersonalityCall>>))
    requires
        reg.wf(),
        mem.wf(),
        ctx.wf(),
    ensures
        spec_search_post(*reg, *ctx, *old(obj), *final(obj), r.0, r.1@),
{
    let mut cur = crate::walker::clone_context(ctx);
    let mut from_signal = false;
    let ghost mut log: Seq<PersonalityCall> = Seq::empty();
    loop
        invariant
            cur.wf(),
            cur.spec_sp() >= ctx.spec_sp(),
            obj.exception_class == old(obj).exception_class,
            obj.private_1 == old(obj).private_1,
            obj.private_2 == old(obj).private_2,
            forall|k: int| 0 <= k < log.len() ==> (#[trigger] log[k]).actions == UA_SEARCH_PHASE,
            forall|k1: int, k2: int|
                0 <= k1 < k2 < log.len() ==> (#[trigger] log[k1]).cfa < (#[trigger] log[k2]).cfa,
            forall|k: int| 0 <= k < log.len() ==> (#[trigger] log[k]).cfa > ctx.spec_sp(),
            forall|k: int| 0 <= k < log.len() ==> (#[trigger] log[k]).cfa <= cur.spec_sp(),
            forall|k: int| 0 <= k < log.len() ==> (#[trigger] log[k]).class == old(
                obj,
            ).exception_class,
            forall|k: int| 0 <= k < log.len() ==> (#[trigger] log[k]).verdict is ContinueUnwind,
            spec_no_first_record(*reg, *ctx) ==> log.len() == 0 && cur.pc == ctx.pc && !from_signal,
        decreases u64::MAX - cur.spec_sp(),
    {
        match step(reg, mem, &cur, from_signal) {
            StepResult::EndOfStack(_) => {
                return (ReasonCode::EndOfStack, Ghost(log));
            },
            StepResult::Fatal => {
                return (ReasonCode::FatalPhase1Error, Ghost(log));
            },
            StepResult::Frame(fs) => {
                let cfa = fs.cfa;
                if fs.has_personality {
                    let mut cursor = UnwindCursor {
                        ctx: cur,
                        cfa,
                        lsda: fs.lsda,
                        region_start: fs.region_start,
                        signal_frame: fs.signal_frame,
                        text_base: fs.text_base,
                    };
                    let verdict = pers.personality(
                        UNWIND_VERSION,
                        UA_SEARCH_PHASE,
                        obj.exception_class,
                        obj,
                        &mut cursor,
                    );
                    proof {
                        log = log.push(
                            PersonalityCall {
                                cfa,
                                actions: UA_SEARCH_PHASE,
                                class: obj.exception_class,
                                verdict,
                                installed: cursor.ctx,
                            },
                        );
                    }
                    match verdict {
                        ReasonCode::HandlerFound => {
                            obj.private_1 = cfa;
                            return (ReasonCode::HandlerFound, Ghost(log));
                        },
                        ReasonCode::ContinueUnwind => {},
                        _ => {
                            return (ReasonCode::FatalPhase1Error, Ghost(log));
                        },
                    }
                }
                from_signal = fs.signal_frame;
                cur = fs.caller;
            },
        }
    }
}

/// Phase 2, the cleanup: walk the frames from `ctx` again, running each
/// personality in cleanup mode, flagging the handler frame exactly where
/// the frame's CFA equals `obj.private_1`, and transferring control with
/// the snapshot the installing personality left in its cursor.  Reaching
/// the end of the stack or any walking fault here is fatal: the stack
/// below is already dismantled.
#[verifier::loop_isolation(false)]
fn cleanup_phase<P: Personality>(
    reg: &ObjectRegistry,
    mem: &Memory,
    pers: &mut P,
    obj: &ExceptionObject,
    ctx: &Context,
) -> (r: (UnwindOutcome, Ghost<Seq<PersonalityCall>>))
    requires
        reg.wf(),
        mem.wf(),
        ctx.wf(),
    ensures
        spec_phase2_post(*reg, *ctx, *obj, r.0, r.1@),
{
    let mut cur = crate::walker::clone_context(ctx);
    let mut from_signal = false;
    let ghost mut log: Seq<PersonalityCall> = Seq::empty();
    loop
        invariant
            cur.wf(),
            cur.spec_sp() >= ctx.spec_sp(),
            spec_phase2_log_ok(log, UA_CLEANUP_PHASE, obj.private_1),
            forall|k: int| 0 <= k < log.len() ==> (#[trigger] log[k]).cfa > ctx.spec_sp(),
            forall|k: int| 0 <= k < log.len() ==> (#[trigger] log[k]).cfa <= cur.spec_sp(),
            forall|k: int| 0 <= k < log.len() ==> (#[trigger] log[k]).class
                == obj.exception_class,
            forall|k: int| 0 <= k < log.len() ==> (#[trigger] log[k]).verdict is ContinueUnwind,
            spec_no_first_record(*reg, *ctx) ==> log.len() == 0 && cur.pc == ctx.pc && !from_signal,
        decreases u64::MAX - cur.spec_sp(),
    {
        match step(reg, mem, &cur, from_signal) {
            StepResult::EndOfStack(_) => {
                return (UnwindOutcome::Error(ReasonCode::FatalPhase2Error), Ghost(log));
            },
            StepResult::Fatal => {
                return (UnwindOutcome::Error(ReasonCode::FatalPhase2Error), Ghost(log));
            },
            StepResult::Frame(fs) => {
                let cfa = fs.cfa;
                if fs.has_personality {
                    let actions: u32 = if cfa == obj.private_1 {
                        UA_CLEANUP_PHASE | UA_HANDLER_FRAME
                    } else {
                        UA_CLEANUP_PHASE
                    };
                    let mut cursor = UnwindCursor {
                        ctx: cur,
                        cfa,
                        lsda: fs.lsda,
                        region_start: fs.region_start,
                        signal_frame: fs.signal_frame,
                        text_base: fs.text_base,
                    };
                    let verdict = pers.personality(
                        UNWIND_VERSION,
                        actions,
                        obj.exception_class,
                        obj,
                        &mut cursor,
                    );
                    proof {
                        assert((UA_CLEANUP_PHASE | UA_HANDLER_FRAME) & UA_HANDLER_FRAME != 0
                            && UA_CLEANUP_PHASE & UA_HANDLER_FRAME == 0) by (bit_vector);
                        log = log.push(
                            PersonalityCall {
                                cfa,
                                actions,
                                class: obj.exception_class,
                                verdict,
                                installed: cursor.ctx,
                            },
                        );
                    }
                    match verdict {
                        ReasonCode::InstallContext => {
                            return (UnwindOutcome::Transfer(cursor.ctx), Ghost(log));
                        },
                        ReasonCode::ContinueUnwind => {
                            cur = fs.caller;
                        },
                        _ => {
                            return (
                                UnwindOutcome::Error(ReasonCode::FatalPhase2Error),
                                Ghost(log),
                            );
                        },
                    }
                } else {
                    cur = fs.caller;
                }
                from_signal = fs.signal_frame;
            },
        }
    }
}

/// Raises an exception: phase 1 searches for a frame whose personality
/// claims it — recording that frame's CFA in the object's first private
/// word — then phase 2 walks again, running cleanups up to the claiming
/// frame and transferring control with the snapshot its personality
/// installed.  Exhausting the stack in phase 1, or raising with no unwind
/// info at all, reports `EndOfStack` with the object untouched, so the
/// host language decides what a missing handler means.
pub fn raise_exception<P: Personality>(
    reg: &ObjectRegistry,
    mem: &Memory,
    pers: &mut P,
    obj: &mut ExceptionObject,
    ctx: &Context,
) -> (r: (UnwindOutcome, Ghost<Seq<PersonalityCall>>, Ghost<Seq<PersonalityCall>>))
    requires
        reg.wf(),
        mem.wf(),
        ctx.wf(),
    ensures
        spec_raise_post(*reg, *ctx, *old(obj), *final(obj), r.0, r.1@, r.2@),
{
    let (verdict, phase1_log) = search_phase(reg, mem, pers, obj, ctx);
    match verdict {
        ReasonCode::HandlerFound => {
            let (outcome, phase2_log) = cleanup_phase(reg, mem, pers, obj, ctx);
            (outcome, phase1_log, phase2_log)
        },
        code => (UnwindOutcome::Error(code), phase1_log, Ghost(Seq::empty())),
    }
}

/// Re-enters phase 2 after a cleanup pad ran: walks from the pad's
/// context `ctx` with the same exception object, whose first private word
/// still names the handler frame, so the walk resumes at the frame
/// immediately enclosing the pad.
pub fn resume<P: Personality>(
    reg: &ObjectRegistry,
    mem: &Memory,
    pers: &mut P,
    obj: &ExceptionObject,
    ctx: &Context,
) -> (r: (UnwindOutcome, Ghost<Seq<PersonalityCall>>))
    requires
        reg.wf(),
        mem.wf(),
        ctx.wf(),
    ensures
        spec_phase2_post(*reg, *ctx, *obj, r.0, r.1@),
{
    cleanup_phase(reg, mem, pers, obj, ctx)
}

/// Resumes or rethrows: a cleanup pad that cannot tell how its exception
/// arrived calls this instead of `resume`.  An object whose first private
/// word is empty was never claimed by a phase-1 search — it travelled
/// under a forced unwind — so propagation starts over as a fresh raise;
/// otherwise the recorded handler frame stands and phase 2 resumes.
pub fn resume_or_rethrow<P: Personality>(
    reg: &ObjectRegistry,
    mem: &Memory,
    pers: &mut P,
    obj: &mut ExceptionObject,
    ctx: &Context,
) -> (r: (UnwindOutcome, Ghost<Seq<PersonalityCall>>, Ghost<Seq<PersonalityCall>>))
    requires
        reg.wf(),
        mem.wf(),
        ctx.wf(),
    ensures
        old(obj).private_1 == 0 ==> spec_raise_post(
            *reg,
            *ctx,
            *old(obj),
            *final(obj),
            r.0,
            r.1@,
            r.2@,
        ),
        old(obj).private_1 != 0 ==> *final(obj) == *old(obj) && r.1@.len() == 0
            && spec_phase2_post(*reg, *ctx, *old(obj), r.0, r.2@),
{
    if obj.private_1 == 0 {
        raise_exception(reg, mem, pers, obj, ctx)
    } else {
        let (outcome, log) = cleanup_phase(reg, mem, pers, obj, ctx);
        (outcome, Ghost(Seq::empty()), log)
    }
}

/// A forced unwind: phase 2 alone, with the force bit on every call and
/// the stop callback consulted before each frame's personality.  A stop
/// verdict other than `NoReason` transfers control to the frame as the
/// stop callback left it — this engine's reading of the stop contract,
/// under which `NormalStop` and `InstallContext` act alike — and no
/// further frame is visited.  Exhausting the stack, or starting with no
/// unwind info at all, reports `EndOfStack` to the caller.
#[verifier::loop_isolation(false)]
#[verifier::rlimit(100)]
pub fn forced_unwind<P: Personality, S: StopFn>(
    reg: &ObjectRegistry,
    mem: &Memory,
    pers: &mut P,
    stop: &mut S,
    obj: &ExceptionObject,
    ctx: &Context,
) -> (r: (UnwindOutcome, Ghost<Seq<PersonalityCall>>, Ghost<Seq<PersonalityCall>>))
    requires
        reg.wf(),
        mem.wf(),
        ctx.wf(),
    ensures
        spec_phase2_log_ok(r.1@, UA_CLEANUP_PHASE | UA_FORCE_UNWIND, obj.private_1),
        spec_phase2_log_ok(r.2@, UA_CLEANUP_PHASE | UA_FORCE_UNWIND, obj.private_1),
        forall|k: int| 0 <= k < r.1@.len() ==> (#[trigger] r.1@[k]).cfa > ctx.spec_sp(),
        forall|k: int| 0 <= k < r.2@.len() ==> (#[trigger] r.2@[k]).cfa > ctx.spec_sp(),
        forall|k: int| 0 <= k < r.1@.len() ==> (#[trigger] r.1@[k]).class
            == obj.exception_class,
        forall|k: int| 0 <= k < r.2@.len() ==> (#[trigger] r.2@[k]).class
            == obj.exception_class,
        forall|k: int| 0 <= k < r.1@.len() - 1 ==> (#[trigger] r.1@[k]).verdict
            is ContinueUnwind,
        forall|k: int| 0 <= k < r.2@.len() - 1 ==> (#[trigger] r.2@[k]).verdict is NoReason,
        forall|k: int|
            0 <= k < r.1@.len() ==> exists|j: int|
                0 <= j < r.2@.len() && (#[trigger] r.2@[j]).cfa == (#[trigger] r.1@[k]).cfa,
        r.0 matches UnwindOutcome::Error(code) ==> (code is FatalPhase2Error || code
            is EndOfStack),
        (r.0 is Transfer) <==> ((r.2@.len() >= 1 && !(r.2@.last().verdict is NoReason)) || (
        r.1@.len() >= 1 && r.1@.last().verdict is InstallContext)),
        r.0 matches UnwindOutcome::Transfer(c) ==> ((r.2@.len() >= 1 && !(r.2@.last().verdict
            is NoReason)) ==> c == r.2@.last().installed),
        r.0 matches UnwindOutcome::Transfer(c) ==> ((r.2@.len() == 0 || r.2@.last().verdict
            is NoReason) ==> r.1@.len() >= 1 && r.1@.last().verdict is InstallContext && c
            == r.1@.last().installed),
        spec_no_first_record(*reg, *ctx) ==> (r.0 matches UnwindOutcome::Error(code2) && code2
            is EndOfStack) && r.1@.len() == 0 && r.2@.len() == 0,
{
    let mut cur = crate::walker::clone_context(ctx);
    let mut from_signal = false;
    let ghost mut plog: Seq<PersonalityCall> = Seq::empty();
    let ghost mut slog: Seq<PersonalityCall> = Seq::empty();
    let base: u32 = UA_CLEANUP_PHASE | UA_FORCE_UNWIND;
    loop
        invariant
            cur.wf(),
            cur.spec_sp() >= ctx.spec_sp(),
            spec_phase2_log_ok(plog, UA_CLEANUP_PHASE | UA_FORCE_UNWIND, obj.private_1),
            spec_phase2_log_ok(slog, UA_CLEANUP_PHASE | UA_FORCE_UNWIND, obj.private_1),
            forall|k: int| 0 <= k < plog.len() ==> (#[trigger] plog[k]).cfa > ctx.spec_sp(),
            forall|k: int| 0 <= k < slog.len() ==> (#[trigger] slog[k]).cfa > ctx.spec_sp(),
            forall|k: int| 0 <= k < plog.len() ==> (#[trigger] plog[k]).cfa <= cur.spec_sp(),
            forall|k: int| 0 <= k < slog.len() ==> (#[trigger] slog[k]).cfa <= cur.spec_sp(),
            forall|k: int| 0 <= k < plog.len() ==> (#[trigger] plog[k]).class
                == obj.exception_class,
            forall|k: int| 0 <= k < slog.len() ==> (#[trigger] slog[k]).class
                == obj.exception_class,
            forall|k: int| 0 <= k < plog.len() ==> (#[trigger] plog[k]).verdict
                is ContinueUnwind,
            forall|k: int| 0 <= k < slog.len() ==> (#[trigger] slog[k]).verdict is NoReason,
            forall|k: int|
                0 <= k < plog.len() ==> exists|j: int|
                    0 <= j < slog.len() && (#[trigger] slog[j]).cfa == (#[trigger] plog[k]).cfa,
            spec_no_first_record(*reg, *ctx) ==> plog.len() == 0 && slog.len() == 0 && cur.pc
                == ctx.pc && !from_signal,
        decreases u64::MAX - cur.spec_sp(),
    {
        match step(reg, mem, &cur, from_signal) {
            StepResult::EndOfStack(_) => {
                return (UnwindOutcome::Error(ReasonCode::EndOfStack), Ghost(plog), Ghost(slog));
            },
            StepResult::Fatal => {
                return (
                    UnwindOutcome::Error(ReasonCode::FatalPhase2Error),
                    Ghost(plog),
                    Ghost(slog),
                );
            },
            StepResult::Frame(fs) => {
                let cfa = fs.cfa;
                let actions: u32 = if cfa == obj.private_1 {
                    base | UA_HANDLER_FRAME
                } else {
                    base
                };
                proof {
                    assert(((UA_CLEANUP_PHASE | UA_FORCE_UNWIND) | UA_HANDLER_FRAME)
                        & UA_HANDLER_FRAME != 0 && (UA_CLEANUP_PHASE | UA_FORCE_UNWIND)
                        & UA_HANDLER_FRAME == 0) by (bit_vector);
                }
                let mut cursor = UnwindCursor {
                    ctx: cur,
                    cfa,
                    lsda: fs.lsda,
                    region_start: fs.region_start,
                    signal_frame: fs.signal_frame,
                    text_base: fs.text_base,
                };
                let stop_verdict = stop.stop(
                    UNWIND_VERSION,
                    actions,
                    obj.exception_class,
                    obj,
                    &mut cursor,
                );
                proof {
                    let slog0 = slog;
                    slog = slog.push(
                        PersonalityCall {
                            cfa,
                            actions,
                            class: obj.exception_class,
                            verdict: stop_verdict,
                            installed: cursor.ctx,
                        },
                    );
                    assert forall|k: int| 0 <= k < plog.len() implies exists|j: int|
                        0 <= j < slog.len() && (#[trigger] slog[j]).cfa == (
                    #[trigger] plog[k]).cfa by {
                        let j0 = choose|j: int|
                            0 <= j < slog0.len() && (#[trigger] slog0[j]).cfa == plog[k].cfa;
                        assert(slog[j0].cfa == plog[k].cfa);
                    }
                }
                match stop_verdict {
                    ReasonCode::NoReason => {},
                    _ => {
                        return (UnwindOutcome::Transfer(cursor.ctx), Ghost(plog), Ghost(slog));
                    },
                }
                if fs.has_personality {
                    let verdict = pers.personality(
                        UNWIND_VERSION,
                        actions,
                        obj.exception_class,
                        obj,
                        &mut cursor,
                    );
                    proof {
                        plog = plog.push(
                            PersonalityCall {
                                cfa,
                                actions,
                                class: obj.exception_class,
                                verdict,
                                installed: cursor.ctx,
                            },
                        );
                        assert forall|k: int| 0 <= k < plog.len() implies exists|j: int|
                            0 <= j < slog.len() && (#[trigger] slog[j]).cfa == (
                        #[trigger] plog[k]).cfa by {
                            if k == plog.len() - 1 {
                                assert(slog[slog.len() - 1].cfa == plog[k].cfa);
                            }
                        }
                    }
                    match verdict {
                        ReasonCode::InstallContext => {
                            return (
                                UnwindOutcome::Transfer(cursor.ctx),
                                Ghost(plog),
                                Ghost(slog),
                            );
                        },
                        ReasonCode::ContinueUnwind => {},
                        _ => {
                            return (
                                UnwindOutcome::Error(ReasonCode::FatalPhase2Error),
                                Ghost(plog),
                                Ghost(slog),
                            );
                        },
                    }
                }
                from_signal = fs.signal_frame;
                cur = fs.caller;
            },
        }
    }
}

/// Walks the frames from `ctx`, handing each one's cursor to the
/// callback.  The ghost log pairs each visited CFA with the callback's
/// return: the walk continues exactly while the callback returns zero, so
/// `NoReason` is reported exactly when the last logged return is
/// non-zero; the end of the stack reports `EndOfStack` — owed outright
/// when nothing covers the first lookup — and a walking fault
/// `FatalPhase1Error`.
#[verifier::loop_isolation(false)]
pub fn backtrace<T: TraceFn>(
    reg: &ObjectRegistry,
    mem: &Memory,
    tracer: &mut T,
    ctx: &Context,
) -> (r: (ReasonCode, Ghost<Seq<(u64, u64)>>))
    requires
        reg.wf(),
        mem.wf(),
        ctx.wf(),
    ensures
        r.0 is EndOfStack || r.0 is NoReason || r.0 is FatalPhase1Error,
        forall|k1: int, k2: int|
            0 <= k1 < k2 < r.1@.len() ==> (#[trigger] r.1@[k1]).0 < (#[trigger] r.1@[k2]).0,
        forall|k: int| 0 <= k < r.1@.len() ==> (#[trigger] r.1@[k]).0 > ctx.spec_sp(),
        forall|k: int| 0 <= k < r.1@.len() - 1 ==> (#[trigger] r.1@[k]).1 == 0,
        (r.0 is NoReason) <==> (r.1@.len() >= 1 && r.1@.last().1 != 0),
        spec_no_first_record(*reg, *ctx) ==> r.0 is EndOfStack && r.1@.len() == 0,
{
    let mut cur = crate::walker::clone_context(ctx);
    let mut from_signal = false;
    let ghost mut log: Seq<(u64, u64)> = Seq::empty();
    loop
        invariant
            cur.wf(),
            cur.spec_sp() >= ctx.spec_sp(),
            forall|k1: int, k2: int|
                0 <= k1 < k2 < log.len() ==> (#[trigger] log[k1]).0 < (#[trigger] log[k2]).0,
            forall|k: int| 0 <= k < log.len() ==> (#[trigger] log[k]).0 > ctx.spec_sp(),
            forall|k: int| 0 <= k < log.len() ==> (#[trigger] log[k]).0 <= cur.spec_sp(),
            forall|k: int| 0 <= k < log.len() ==> (#[trigger] log[k]).1 == 0,
            spec_no_first_record(*reg, *ctx) ==> log.len() == 0 && cur.pc == ctx.pc && !from_signal,
        decreases u64::MAX - cur.spec_sp(),
    {
        match step(reg, mem, &cur, from_signal) {
            StepResult::EndOfStack(_) => {
                return (ReasonCode::EndOfStack, Ghost(log));
            },
            StepResult::Fatal => {
                return (ReasonCode::FatalPhase1Error, Ghost(log));
            },
            StepResult::Frame(fs) => {
                let cursor = UnwindCursor {
                    ctx: cur,
                    cfa: fs.cfa,
                    lsda: fs.lsda,
                    region_start: fs.region_start,
                    signal_frame: fs.signal_frame,
                    text_base: fs.text_base,
                };
                let verdict = tracer.trace(&cursor);
                proof {
                    log = log.push((fs.cfa, verdict));
                }
                if verdict != 0 {
                    return (ReasonCode::NoReason, Ghost(log));
                }
                from_signal = fs.signal_frame;
                cur = fs.caller;
            },
        }
    }
}

/// The code range's start for the function enclosing `pc`, from the
/// registry.
pub fn find_enclosing_function(reg: &ObjectRegistry, pc: u64) -> (r: Option<u64>)
    requires
        reg.wf(),
    ensures
        r is Some ==> reg.spec_has_fde(pc),
        r is None ==> !reg.spec_has_fde(pc),
        r matches Some(start) ==> exists|i: int, j: int|
            0 <= i < reg.objects@.len() && 0 <= j < (#[trigger] reg.objects@[i]).fdes@.len() && (
            #[trigger] reg.objects@[i].fdes@[j]).spec_covers(pc)
                && reg.objects@[i].fdes@[j].initial_location == start,
{
    match reg.find(pc) {
        Some((i, j)) => Some(reg.objects[i].fdes[j].initial_location),
        None => None,
    }
}

} // verus!
