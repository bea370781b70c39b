//! The engine's cross-function guarantees, stated and proved over the
//! ghost logs and views its operations return.

use vstd::prelude::*;
use crate::abi::{PersonalityCall, UA_HANDLER_FRAME, spec_phase2_log_ok};
use crate::registry::ObjectRegistry;

verus! {

/// Two-phase contract: in any phase-2 invocation log the engine produces,
/// the handler-frame flag is carried by at most one invocation, and any
/// invocation carrying it sits at the CFA phase 1 recorded.
pub proof fn lemma_handler_frame_unique(log: Seq<PersonalityCall>, base: u32, handler_cfa: u64)
    requires
        spec_phase2_log_ok(log, base, handler_cfa),
    ensures
        forall|k: int|
            0 <= k < log.len() && ((#[trigger] log[k]).actions & UA_HANDLER_FRAME) != 0
                ==> log[k].cfa == handler_cfa,
        forall|k1: int, k2: int|
            0 <= k1 < log.len() && 0 <= k2 < log.len() && ((#[trigger] log[k1]).actions
                & UA_HANDLER_FRAME) != 0 && ((#[trigger] log[k2]).actions & UA_HANDLER_FRAME) != 0
                ==> k1 == k2,
{
    assert forall|k1: int, k2: int|
        0 <= k1 < log.len() && 0 <= k2 < log.len() && ((#[trigger] log[k1]).actions
            & UA_HANDLER_FRAME) != 0 && ((#[trigger] log[k2]).actions & UA_HANDLER_FRAME)
            != 0 implies k1 == k2 by {
        if k1 < k2 {
            assert(log[k1].cfa < log[k2].cfa);
        }
        if k2 < k1 {
            assert(log[k2].cfa < log[k1].cfa);
        }
    }
}

/// Two-phase contract, completion: when phase 2 ends at the handler frame
/// — the last invocation sits at the CFA phase 1 recorded — that
/// invocation is the one and only one flagged as the handler frame; every
/// earlier cleanup ran unflagged.
pub proof fn lemma_transfer_at_handler(log: Seq<PersonalityCall>, base: u32, handler_cfa: u64)
    requires
        spec_phase2_log_ok(log, base, handler_cfa),
        log.len() >= 1,
        log.last().cfa == handler_cfa,
    ensures
        (log.last().actions & UA_HANDLER_FRAME) != 0,
        forall|k: int|
            0 <= k < log.len() - 1 ==> ((#[trigger] log[k]).actions & UA_HANDLER_FRAME) == 0,
{
    assert forall|k: int| 0 <= k < log.len() - 1 implies ((#[trigger] log[k]).actions
        & UA_HANDLER_FRAME) == 0 by {
        assert(log[k].cfa < log[log.len() - 1].cfa);
    }
}

/// Monotonic frames: a walk whose CFAs rise strictly never presents the
/// same frame twice.
pub proof fn lemma_frames_distinct(cfas: Seq<u64>)
    requires
        forall|k1: int, k2: int|
            0 <= k1 < k2 < cfas.len() ==> (#[trigger] cfas[k1]) < (#[trigger] cfas[k2]),
    ensures
        forall|k1: int, k2: int|
            0 <= k1 < cfas.len() && 0 <= k2 < cfas.len() && k1 != k2 ==> (#[trigger] cfas[k1]) != (
            #[trigger] cfas[k2]),
{
    assert forall|k1: int, k2: int|
        0 <= k1 < cfas.len() && 0 <= k2 < cfas.len() && k1 != k2 implies (#[trigger] cfas[k1]) != (
    #[trigger] cfas[k2]) by {
        if k1 < k2 {
            assert(cfas[k1] < cfas[k2]);
        } else {
            assert(cfas[k2] < cfas[k1]);
        }
    }
}

/// Registry consistency: once an object is deregistered, no entry under
/// its handle remains, so no later lookup can reach its records.  The
/// complementary direction — a lookup only ever returns indices into the
/// currently registered objects, each covering the looked-up address — is
/// the contract of `ObjectRegistry::find` itself.
pub proof fn lemma_deregistered_object_gone(
    before: ObjectRegistry,
    after: ObjectRegistry,
    handle: u64,
    k: int,
)
    requires
        before.wf(),
        0 <= k < before.objects@.len(),
        before.objects@[k].handle == handle,
        after.objects@ == before.objects@.remove(k),
    ensures
        forall|i: int|
            0 <= i < after.objects@.len() ==> (#[trigger] after.objects@[i]).handle != handle,
{
    assert forall|i: int| 0 <= i < after.objects@.len() implies (
    #[trigger] after.objects@[i]).handle != handle by {
        if i < k {
            assert(after.objects@[i] == before.objects@[i]);
        } else {
            assert(after.objects@[i] == before.objects@[i + 1]);
        }
    }
}

} // verus!
