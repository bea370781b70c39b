//! End-to-end scenarios over a three-frame stack image: main calls f, f
//! calls g, and the exception is raised inside g.

use unwinding::abi::{
    backtrace, forced_unwind, raise_exception, resume, resume_or_rethrow, ExceptionObject,
    Personality, ReasonCode, StopFn, TraceFn, UnwindCursor, UnwindOutcome, UA_CLEANUP_PHASE,
    UA_FORCE_UNWIND, UA_HANDLER_FRAME, UA_SEARCH_PHASE,
};
use unwinding::arch::Context;
use unwinding::entry::{Cie, Fde};
use unwinding::mem::Memory;
use unwinding::registry::{ObjectRegistry, RegisteredObject, RegistryError};

const LNU_CLASS: u64 = 0x4C4E55580000C2B0;
const CFA_G: u64 = 0x7fff_ffff_e100;
const CFA_F: u64 = 0x7fff_ffff_e200;
const CFA_MAIN: u64 = 0x7fff_ffff_e300;
const SP0: u64 = 0x7fff_ffff_e0f0;
const PC_IN_G: u64 = 0x3050;
const PC_IN_F: u64 = 0x2050;
const PC_IN_MAIN: u64 = 0x1050;
const PAD_MAIN: u64 = 0x10f0;
const PAD_G: u64 = 0x30f0;

fn write_u64(bytes: &mut Vec<u8>, off: usize, v: u64) {
    for i in 0..8 {
        bytes[off + i] = (v >> (8 * i)) as u8;
    }
}

fn cie(signal_frame: bool) -> Cie {
    Cie {
        code_align: 1,
        data_align: -8,
        ra_register: 1,
        signal_frame,
        has_personality: true,
        instructions: Vec::new(),
    }
}

/// def_cfa(sp=3, cfa_off); offset(ra=1, 1) — the return address sits one
/// word below the CFA.
fn frame_instructions(cfa_off: u64) -> Vec<u8> {
    let mut v = vec![0x0c, 0x03];
    if cfa_off < 0x80 {
        v.push(cfa_off as u8);
    } else {
        v.push((cfa_off & 0x7f) as u8 | 0x80);
        v.push((cfa_off >> 7) as u8);
    }
    v.push(0x81);
    v.push(0x01);
    v
}

/// The test object: main at 0x1000 (or 0x1050), f at 0x2000, g at 0x3000.
/// With `signal_middle`, f's records use the signal-frame CIE and main's
/// range starts exactly at the interrupted instruction 0x1050, so only a
/// lookup without the return-address adjustment finds it.
fn build_object(signal_middle: bool) -> RegisteredObject {
    let main_start = if signal_middle { 0x1050 } else { 0x1000 };
    RegisteredObject {
        handle: 0,
        text_start: 0x1000,
        text_end: 0x4000,
        cies: vec![cie(false), cie(true)],
        fdes: vec![
            Fde {
                cie_index: 0,
                initial_location: main_start,
                address_range: 0x1100 - main_start,
                lsda: 0x111,
                instructions: frame_instructions(0x100),
            },
            Fde {
                cie_index: if signal_middle { 1 } else { 0 },
                initial_location: 0x2000,
                address_range: 0x100,
                lsda: 0x222,
                instructions: frame_instructions(0x100),
            },
            Fde {
                cie_index: 0,
                initial_location: 0x3000,
                address_range: 0x100,
                lsda: 0x333,
                instructions: frame_instructions(0x10),
            },
        ],
    }
}

fn build_env(signal_middle: bool) -> (ObjectRegistry, Memory, Context) {
    let mut reg = ObjectRegistry::new();
    reg.register(build_object(signal_middle)).unwrap();
    let mut bytes = vec![0u8; 0x400];
    // Saved return addresses, one word below each CFA.
    write_u64(&mut bytes, 0xf8, PC_IN_F);
    write_u64(&mut bytes, 0x1f8, PC_IN_MAIN);
    write_u64(&mut bytes, 0x2f8, 0x9999);
    let mem = Memory { base: 0x7fff_ffff_e000, bytes };
    let mut ctx = Context::new();
    ctx.set_reg(3, SP0);
    ctx.pc = PC_IN_G;
    (reg, mem, ctx)
}

/// A scripted personality: claims the exception of `LNU_CLASS` at
/// `handler_cfa`, installs `pad_ip` at the handler frame, optionally
/// installs a cleanup pad at `cleanup_pad_at`, and records every call.
struct Script {
    handler_cfa: u64,
    pad_ip: u64,
    cleanup_pad_at: Option<u64>,
    calls: Vec<(u32, u64, u64)>,
}

impl Script {
    fn new(handler_cfa: u64, pad_ip: u64) -> Script {
        Script { handler_cfa, pad_ip, cleanup_pad_at: None, calls: Vec::new() }
    }
}

impl Personality for Script {
    fn personality(
        &mut self,
        version: u32,
        actions: u32,
        exception_class: u64,
        _exception: &ExceptionObject,
        cursor: &mut UnwindCursor,
    ) -> ReasonCode {
        assert_eq!(version, 1);
        self.calls.push((actions, cursor.get_cfa(), cursor.get_ip()));
        if actions & UA_SEARCH_PHASE != 0 {
            if exception_class == LNU_CLASS && cursor.get_cfa() == self.handler_cfa {
                ReasonCode::HandlerFound
            } else {
                ReasonCode::ContinueUnwind
            }
        } else {
            if let Some(cl) = self.cleanup_pad_at {
                if cursor.get_cfa() == cl {
                    cursor.set_ip(PAD_G);
                    return ReasonCode::InstallContext;
                }
            }
            if actions & UA_HANDLER_FRAME != 0 {
                cursor.set_ip(self.pad_ip);
                cursor.set_gr(4, 0xdead_beef);
                ReasonCode::InstallContext
            } else {
                ReasonCode::ContinueUnwind
            }
        }
    }
}

#[test]
fn s1_catch_in_main() {
    let (reg, mem, ctx) = build_env(false);
    let mut pers = Script::new(CFA_MAIN, PAD_MAIN);
    let mut obj = ExceptionObject { exception_class: LNU_CLASS, private_1: 0, private_2: 0 };
    let (outcome, _, _) = raise_exception(&reg, &mem, &mut pers, &mut obj, &ctx);
    match outcome {
        UnwindOutcome::Transfer(pad) => {
            assert_eq!(pad.pc, PAD_MAIN);
            assert_eq!(pad.reg(4), 0xdead_beef);
        }
        UnwindOutcome::Error(code) => panic!("raise failed: {:?}", code),
    }
    assert_eq!(obj.private_1, CFA_MAIN);
    assert_eq!(
        pers.calls,
        vec![
            (UA_SEARCH_PHASE, CFA_G, PC_IN_G),
            (UA_SEARCH_PHASE, CFA_F, PC_IN_F),
            (UA_SEARCH_PHASE, CFA_MAIN, PC_IN_MAIN),
            (UA_CLEANUP_PHASE, CFA_G, PC_IN_G),
            (UA_CLEANUP_PHASE, CFA_F, PC_IN_F),
            (UA_CLEANUP_PHASE | UA_HANDLER_FRAME, CFA_MAIN, PC_IN_MAIN),
        ]
    );
}

#[test]
fn s2_no_handler() {
    let (reg, mem, ctx) = build_env(false);
    // A handler CFA no frame has: every personality passes.
    let mut pers = Script::new(1, PAD_MAIN);
    let mut obj = ExceptionObject { exception_class: LNU_CLASS, private_1: 7, private_2: 9 };
    let (outcome, _, _) = raise_exception(&reg, &mem, &mut pers, &mut obj, &ctx);
    match outcome {
        UnwindOutcome::Error(code) => {
            assert_eq!(code, ReasonCode::EndOfStack);
            assert_eq!(code.as_int(), 5);
        }
        UnwindOutcome::Transfer(_) => panic!("unexpected transfer"),
    }
    // The exception object is untouched.
    assert_eq!(obj.exception_class, LNU_CLASS);
    assert_eq!(obj.private_1, 7);
    assert_eq!(obj.private_2, 9);
    assert_eq!(pers.calls.len(), 3);
    assert!(pers.calls.iter().all(|c| c.0 == UA_SEARCH_PHASE));
}

/// A personality that raises a fresh exception during the cleanup of g,
/// then lets the outer unwind continue.
struct NestingScript {
    outer: Script,
    nested_done: bool,
}

impl Personality for NestingScript {
    fn personality(
        &mut self,
        version: u32,
        actions: u32,
        exception_class: u64,
        exception: &ExceptionObject,
        cursor: &mut UnwindCursor,
    ) -> ReasonCode {
        if actions & UA_CLEANUP_PHASE != 0 && cursor.get_cfa() == CFA_G && !self.nested_done {
            self.nested_done = true;
            let (reg, mem, _) = build_env(false);
            let mut inner = Script::new(CFA_F, 0x20f0);
            let mut inner_obj =
                ExceptionObject { exception_class: LNU_CLASS, private_1: 0, private_2: 0 };
            let inner_ctx = cursor.ctx.clone();
            let (outcome, _, _) = raise_exception(&reg, &mem, &mut inner, &mut inner_obj, &inner_ctx);
            match outcome {
                UnwindOutcome::Transfer(pad) => {
                    assert_eq!(pad.pc, 0x20f0);
                    assert_eq!(inner_obj.private_1, CFA_F);
                }
                UnwindOutcome::Error(code) => panic!("nested raise failed: {:?}", code),
            }
        }
        self.outer.personality(version, actions, exception_class, exception, cursor)
    }
}

#[test]
fn s3_nested_raise_in_cleanup() {
    let (reg, mem, ctx) = build_env(false);
    let mut pers =
        NestingScript { outer: Script::new(CFA_MAIN, PAD_MAIN), nested_done: false };
    let mut obj = ExceptionObject { exception_class: LNU_CLASS, private_1: 0, private_2: 0 };
    let (outcome, _, _) = raise_exception(&reg, &mem, &mut pers, &mut obj, &ctx);
    // The nested raise completed inside g's cleanup; the outer raise then
    // continued from g's caller with the original object.
    match outcome {
        UnwindOutcome::Transfer(pad) => assert_eq!(pad.pc, PAD_MAIN),
        UnwindOutcome::Error(code) => panic!("outer raise failed: {:?}", code),
    }
    assert!(pers.nested_done);
    assert_eq!(obj.exception_class, LNU_CLASS);
    assert_eq!(obj.private_1, CFA_MAIN);
    let cleanups: Vec<&(u32, u64, u64)> =
        pers.outer.calls.iter().filter(|c| c.0 & UA_CLEANUP_PHASE != 0).collect();
    assert_eq!(cleanups[0].1, CFA_G);
    assert_eq!(cleanups[1].1, CFA_F);
    assert_eq!(cleanups[2].1, CFA_MAIN);
}

struct CountingStop {
    seen: Vec<u64>,
    stop_at: u64,
}

impl StopFn for CountingStop {
    fn stop(
        &mut self,
        version: u32,
        actions: u32,
        _exception_class: u64,
        _exception: &ExceptionObject,
        cursor: &mut UnwindCursor,
    ) -> ReasonCode {
        assert_eq!(version, 1);
        assert!(actions & UA_FORCE_UNWIND != 0);
        self.seen.push(cursor.get_cfa());
        if cursor.get_cfa() == self.stop_at {
            ReasonCode::NormalStop
        } else {
            ReasonCode::NoReason
        }
    }
}

#[test]
fn s4_forced_unwind() {
    let (reg, mem, ctx) = build_env(false);
    let mut pers = Script::new(1, PAD_MAIN);
    let mut stop = CountingStop { seen: Vec::new(), stop_at: CFA_MAIN };
    let obj = ExceptionObject { exception_class: LNU_CLASS, private_1: 0, private_2: 0 };
    let (outcome, _, _) = forced_unwind(&reg, &mem, &mut pers, &mut stop, &obj, &ctx);
    // The stop function halted the unwind at the third frame.
    match outcome {
        UnwindOutcome::Transfer(at) => assert_eq!(at.pc, PC_IN_MAIN),
        UnwindOutcome::Error(code) => panic!("forced unwind failed: {:?}", code),
    }
    assert_eq!(stop.seen, vec![CFA_G, CFA_F, CFA_MAIN]);
    // Personalities on the first two frames ran with cleanup | force.
    assert_eq!(
        pers.calls,
        vec![
            (UA_CLEANUP_PHASE | UA_FORCE_UNWIND, CFA_G, PC_IN_G),
            (UA_CLEANUP_PHASE | UA_FORCE_UNWIND, CFA_F, PC_IN_F),
        ]
    );
}

#[test]
fn s5_foreign_exception() {
    let (reg, mem, ctx) = build_env(false);
    let mut pers = Script::new(CFA_MAIN, PAD_MAIN);
    // An all-zero class the personality does not recognise.
    let mut obj = ExceptionObject { exception_class: 0, private_1: 0, private_2: 0 };
    let (outcome, _, _) = raise_exception(&reg, &mem, &mut pers, &mut obj, &ctx);
    match outcome {
        UnwindOutcome::Error(code) => assert_eq!(code, ReasonCode::EndOfStack),
        UnwindOutcome::Transfer(_) => panic!("unexpected transfer"),
    }
    // The private words were never touched.
    assert_eq!(obj.private_1, 0);
    assert_eq!(obj.private_2, 0);
    assert!(pers.calls.iter().all(|c| c.0 == UA_SEARCH_PHASE));
}

struct CountFrames {
    cfas: Vec<u64>,
}

impl TraceFn for CountFrames {
    fn trace(&mut self, cursor: &UnwindCursor) -> u64 {
        self.cfas.push(cursor.get_cfa());
        0
    }
}

#[test]
fn s6_signal_frame_lookup() {
    // With f marked a signal frame, the walker looks the frame above it up
    // at the interrupted instruction itself, finding main's records that
    // start exactly there.
    let (reg, mem, ctx) = build_env(true);
    let mut tracer = CountFrames { cfas: Vec::new() };
    let (code, _) = backtrace(&reg, &mem, &mut tracer, &ctx);
    assert_eq!(code, ReasonCode::EndOfStack);
    assert_eq!(tracer.cfas, vec![CFA_G, CFA_F, CFA_MAIN]);
    // Without the signal augmentation the same stack image ends at f: the
    // adjusted lookup address falls before main's range.
    let mut reg2 = ObjectRegistry::new();
    let mut obj = build_object(false);
    obj.fdes[0].initial_location = 0x1050;
    obj.fdes[0].address_range = 0x1100 - 0x1050;
    reg2.register(obj).unwrap();
    let (_, mem2, ctx2) = build_env(false);
    let mut tracer2 = CountFrames { cfas: Vec::new() };
    let (code2, _) = backtrace(&reg2, &mem2, &mut tracer2, &ctx2);
    assert_eq!(code2, ReasonCode::EndOfStack);
    assert_eq!(tracer2.cfas, vec![CFA_G, CFA_F]);
}

#[test]
fn resume_reenters_at_enclosing_frame() {
    let (reg, mem, ctx) = build_env(false);
    // g's personality installs a cleanup pad; the pad then resumes.
    let mut pers = Script::new(CFA_MAIN, PAD_MAIN);
    pers.cleanup_pad_at = Some(CFA_G);
    let mut obj = ExceptionObject { exception_class: LNU_CLASS, private_1: 0, private_2: 0 };
    let (outcome, _, _) = raise_exception(&reg, &mem, &mut pers, &mut obj, &ctx);
    let pad_ctx = match outcome {
        UnwindOutcome::Transfer(pad) => {
            assert_eq!(pad.pc, PAD_G);
            pad
        }
        UnwindOutcome::Error(code) => panic!("raise failed: {:?}", code),
    };
    assert_eq!(obj.private_1, CFA_MAIN);
    // The pad tail-calls resume with the same exception object.
    let mut pers2 = Script::new(CFA_MAIN, PAD_MAIN);
    let (outcome2, _) = resume(&reg, &mem, &mut pers2, &obj, &pad_ctx);
    match outcome2 {
        UnwindOutcome::Transfer(pad) => assert_eq!(pad.pc, PAD_MAIN),
        UnwindOutcome::Error(code) => panic!("resume failed: {:?}", code),
    }
    // Phase 2 re-entered at the frame immediately enclosing the pad.
    assert_eq!(pers2.calls[0], (UA_CLEANUP_PHASE, CFA_G, PAD_G));
    assert_eq!(
        pers2.calls[1..],
        [
            (UA_CLEANUP_PHASE, CFA_F, PC_IN_F),
            (UA_CLEANUP_PHASE | UA_HANDLER_FRAME, CFA_MAIN, PC_IN_MAIN),
        ]
    );
    assert_eq!(obj.exception_class, LNU_CLASS);
}

#[test]
fn registry_register_find_deregister() {
    let mut reg = ObjectRegistry::new();
    let h = reg.register(build_object(false)).unwrap();
    assert!(reg.find(0x3050).is_some());
    assert!(reg.find(0x0fff).is_none());
    assert!(reg.find(0x4000).is_none());
    // An overlapping registration is refused.
    let refused = reg.register(build_object(false));
    assert_eq!(refused, Err(RegistryError::OverlappingRange));
    // After deregistration the lookup finds nothing.
    assert!(reg.deregister(h).is_ok());
    assert!(reg.find(0x3050).is_none());
    assert!(reg.deregister(h).is_err());
}

#[test]
fn registry_rejects_malformed_object() {
    let mut reg = ObjectRegistry::new();
    let mut obj = build_object(false);
    // An FDE whose CIE index dangles.
    obj.fdes[0].cie_index = 9;
    assert_eq!(reg.register(obj), Err(RegistryError::MalformedObject));
    let mut obj = build_object(false);
    // An FDE outside the text range.
    obj.fdes[0].initial_location = 0x8000;
    assert_eq!(reg.register(obj), Err(RegistryError::MalformedObject));
}

#[test]
fn walk_is_monotonic_and_terminates() {
    let (reg, mem, ctx) = build_env(false);
    let mut tracer = CountFrames { cfas: Vec::new() };
    let (code, _) = backtrace(&reg, &mem, &mut tracer, &ctx);
    // One callback per frame, end of stack after the outermost.
    assert_eq!(code, ReasonCode::EndOfStack);
    assert_eq!(tracer.cfas.len(), 3);
    // Successive CFAs strictly increase.
    assert!(tracer.cfas.windows(2).all(|w| w[0] < w[1]));
}

#[test]
fn backtrace_callback_stops_walk() {
    let (reg, mem, ctx) = build_env(false);
    struct StopEarly {
        n: u64,
    }
    impl TraceFn for StopEarly {
        fn trace(&mut self, _cursor: &UnwindCursor) -> u64 {
            self.n += 1;
            if self.n == 2 {
                1
            } else {
                0
            }
        }
    }
    let mut tracer = StopEarly { n: 0 };
    let (code, _) = backtrace(&reg, &mem, &mut tracer, &ctx);
    assert_eq!(code, ReasonCode::NoReason);
    assert_eq!(tracer.n, 2);
}

#[test]
fn reason_codes_travel_as_integers() {
    assert_eq!(ReasonCode::NoReason.as_int(), 0);
    assert_eq!(ReasonCode::ForeignExceptionCaught.as_int(), 1);
    assert_eq!(ReasonCode::FatalPhase2Error.as_int(), 2);
    assert_eq!(ReasonCode::FatalPhase1Error.as_int(), 3);
    assert_eq!(ReasonCode::NormalStop.as_int(), 4);
    assert_eq!(ReasonCode::EndOfStack.as_int(), 5);
    assert_eq!(ReasonCode::HandlerFound.as_int(), 6);
    assert_eq!(ReasonCode::InstallContext.as_int(), 7);
    assert_eq!(ReasonCode::ContinueUnwind.as_int(), 8);
}


#[test]
fn raise_without_unwind_info_reports_end_of_stack() {
    // An empty registry: the raise ends before any personality runs and
    // the object is untouched.
    let reg = ObjectRegistry::new();
    let (_, mem, ctx) = build_env(false);
    let mut pers = Script::new(CFA_MAIN, PAD_MAIN);
    let mut obj = ExceptionObject { exception_class: LNU_CLASS, private_1: 3, private_2: 4 };
    let (outcome, _, _) = raise_exception(&reg, &mem, &mut pers, &mut obj, &ctx);
    match outcome {
        UnwindOutcome::Error(code) => assert_eq!(code, ReasonCode::EndOfStack),
        UnwindOutcome::Transfer(_) => panic!("unexpected transfer"),
    }
    assert_eq!((obj.exception_class, obj.private_1, obj.private_2), (LNU_CLASS, 3, 4));
    assert!(pers.calls.is_empty());
}

#[test]
fn resume_or_rethrow_dispatches_on_the_private_word() {
    // An unclaimed object (empty first private word) is rethrown: a full
    // two-phase raise runs.
    let (reg, mem, ctx) = build_env(false);
    let mut pers = Script::new(CFA_MAIN, PAD_MAIN);
    let mut obj = ExceptionObject { exception_class: LNU_CLASS, private_1: 0, private_2: 0 };
    let (outcome, _, _) = resume_or_rethrow(&reg, &mem, &mut pers, &mut obj, &ctx);
    match outcome {
        UnwindOutcome::Transfer(pad) => assert_eq!(pad.pc, PAD_MAIN),
        UnwindOutcome::Error(code) => panic!("rethrow failed: {:?}", code),
    }
    assert!(pers.calls.iter().any(|c| c.0 & UA_SEARCH_PHASE != 0));
    assert_eq!(obj.private_1, CFA_MAIN);
    // A claimed object resumes phase 2 directly: no search runs.
    let mut pers2 = Script::new(CFA_MAIN, PAD_MAIN);
    let mut obj2 = ExceptionObject { exception_class: LNU_CLASS, private_1: CFA_MAIN, private_2: 0 };
    let (outcome2, _, _) = resume_or_rethrow(&reg, &mem, &mut pers2, &mut obj2, &ctx);
    match outcome2 {
        UnwindOutcome::Transfer(pad) => assert_eq!(pad.pc, PAD_MAIN),
        UnwindOutcome::Error(code) => panic!("resume failed: {:?}", code),
    }
    assert!(pers2.calls.iter().all(|c| c.0 & UA_SEARCH_PHASE == 0));
    assert_eq!(obj2.private_1, CFA_MAIN);
}

#[test]
fn backtrace_without_unwind_info_reports_end_of_stack() {
    let reg = ObjectRegistry::new();
    let (_, mem, ctx) = build_env(false);
    let mut tracer = CountFrames { cfas: Vec::new() };
    let (code, _) = backtrace(&reg, &mem, &mut tracer, &ctx);
    assert_eq!(code, ReasonCode::EndOfStack);
    assert!(tracer.cfas.is_empty());
}
