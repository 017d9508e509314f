//! The body of a capability, and the guards that run around it.
//!
//! A `Resource` answers `invoke` (sync capabilities) or `open`
//! (streaming capabilities); the default of each refuses, so a resource
//! overrides the one that applies. The kernel checks the capability's
//! kind, the operation the caller claims and the rate-limit quota
//! before the handler runs, and the per-call wall-clock ceiling after.

use vstd::prelude::*;
use serde_json::Value;
use tokio::sync::mpsc::Receiver;
use crate::text::{decimal, push_decimal};
use crate::types::ids::CapKind;
use crate::types::quota::{quota_kind_name, QuotaKind};
use crate::types::rights::OperationRights;
use crate::kernel::error::{kind_mismatch_message, CapabilityError};

verus! {

#[verifier::external_type_specification]
#[verifier::external_body]
#[verifier::reject_recursive_types(T)]
pub struct ExMpscReceiver<T>(Receiver<T>);

/// One element of a streaming reply.
#[derive(Debug)]
pub enum CapabilityChunk {
    Item(Value),
    Done,
}

/// The body of a capability.
pub trait Resource {
    /// Sync call. The default refuses: not a sync capability.
    fn invoke(&self, input: Value) -> (r: Result<Value, String>)
        default_ensures
            r matches Err(m) && m@ == "not a sync capability"@,
    {
        Err(String::from_str("not a sync capability"))
    }

    /// Open a stream. The default refuses: not a streaming capability.
    fn open(&self, input: Value) -> (r: Result<Receiver<CapabilityChunk>, String>)
        default_ensures
            r matches Err(m) && m@ == "not a streaming capability"@,
    {
        Err(String::from_str("not a streaming capability"))
    }
}

#[verifier::external_type_specification]
#[verifier::external_body]
pub struct ExInstant(std::time::Instant);

/// `std::time::Instant::now`: a reading of the monotonic clock. Nothing
/// is stated of its value.
#[verifier::external_body]
pub(crate) fn clock_now() -> (r: std::time::Instant) {
    std::time::Instant::now()
}

/// `Instant::elapsed`, in whole microseconds (`as_micros`). The value
/// depends on the clock; nothing is stated of it.
#[verifier::external_body]
fn elapsed_micros(start: &std::time::Instant) -> (r: u128) {
    start.elapsed().as_micros()
}

/// The time since `start` in whole microseconds, saturating at
/// `u64::MAX`.
pub(crate) fn micros_since(start: &std::time::Instant) -> (r: u64) {
    let us = elapsed_micros(start);
    if us > u64::MAX as u128 {
        u64::MAX
    } else {
        us as u64
    }
}

/// The text of `CapabilityError::KindMismatch` for a sync call.
pub open spec fn not_sync_message(name: Seq<char>) -> Seq<char> {
    kind_mismatch_message(name, CapKind::Sync)
}

/// The text of `CapabilityError::KindMismatch` for a stream open.
pub open spec fn not_stream_message(name: Seq<char>) -> Seq<char> {
    kind_mismatch_message(name, CapKind::Stream)
}

pub open spec fn denied_message(name: Seq<char>, requested: u32, held: u32) -> Seq<char> {
    name + ": operation denied \u{2014} requested "@ + decimal(requested as nat) + ", held "@
        + decimal(held as nat)
}

pub open spec fn quota_message(name: Seq<char>, kind: QuotaKind, calls_used: u32) -> Seq<char> {
    name + ": quota exhausted ("@ + quota_kind_name(kind) + "); used this minute = "@ + decimal(
        calls_used as nat,
    ) + " calls"@
}

pub open spec fn open_quota_message(name: Seq<char>, kind: QuotaKind) -> Seq<char> {
    name + ": quota exhausted on open ("@ + quota_kind_name(kind) + ")"@
}

pub open spec fn timeout_message(name: Seq<char>, elapsed_ms: u64, budget_ms: u32) -> Seq<char> {
    name + ": timeout "@ + decimal(elapsed_ms as nat) + "ms exceeded budget "@ + decimal(
        budget_ms as nat,
    ) + "ms"@
}

pub open spec fn empty_slot_message(raw: u64) -> Seq<char> {
    "slot "@ + decimal(raw as nat) + " empty or revoked"@
}

/// The guard of a sync call, before quota: the capability must be
/// sync (else the text of `CapabilityError::KindMismatch`) and must
/// hold every requested operation.
pub fn invoke_gate(name: &str, kind: CapKind, held: OperationRights, requested: OperationRights) -> (r:
    Result<(), String>)
    ensures
        kind != CapKind::Sync ==> (r matches Err(e) && e@ == not_sync_message(name@)),
        kind == CapKind::Sync && !held.spec_contains(requested) ==> (r matches Err(e) && e@
            == denied_message(name@, requested.bits, held.bits)),
        kind == CapKind::Sync && held.spec_contains(requested) ==> r is Ok,
{
    if kind != CapKind::Sync {
        let e = CapabilityError::KindMismatch { name: String::from_str(name), expected: CapKind::Sync };
        return Err(e.message());
    }
    if !held.contains(requested) {
        let mut m = String::from_str(name);
        m.append(": operation denied \u{2014} requested ");
        push_decimal(&mut m, requested.bits as u64);
        m.append(", held ");
        push_decimal(&mut m, held.bits as u64);
        return Err(m);
    }
    Ok(())
}

/// The message of a sync call refused by the quota.
pub fn quota_refusal(name: &str, kind: QuotaKind, calls_used: u32) -> (r: String)
    ensures
        r@ == quota_message(name@, kind, calls_used),
{
    let mut m = String::from_str(name);
    m.append(": quota exhausted (");
    m.append(kind.as_str());
    m.append("); used this minute = ");
    push_decimal(&mut m, calls_used as u64);
    m.append(" calls");
    m
}

/// The guard of a stream open, before quota: the capability must be a
/// stream (else the text of `CapabilityError::KindMismatch`).
pub fn open_gate(name: &str, kind: CapKind) -> (r: Result<(), String>)
    ensures
        kind != CapKind::Stream ==> (r matches Err(e) && e@ == not_stream_message(name@)),
        kind == CapKind::Stream ==> r is Ok,
{
    if kind != CapKind::Stream {
        let e = CapabilityError::KindMismatch { name: String::from_str(name), expected: CapKind::Stream };
        return Err(e.message());
    }
    Ok(())
}

/// The message of a stream open refused by the quota.
pub fn open_quota_refusal(name: &str, kind: QuotaKind) -> (r: String)
    ensures
        r@ == open_quota_message(name@, kind),
{
    let mut m = String::from_str(name);
    m.append(": quota exhausted on open (");
    m.append(kind.as_str());
    m.append(")");
    m
}

/// `r` is what a sync call returns once the handler has answered
/// `result` after `elapsed_ms`: a timeout error when the call overran
/// the ceiling, else the handler's answer.
pub open spec fn call_answer(
    name: Seq<char>,
    elapsed_ms: u64,
    timeout_ms: u32,
    result: Result<Value, String>,
    r: Result<Value, String>,
) -> bool {
    if elapsed_ms > timeout_ms {
        r matches Err(e) && e@ == timeout_message(name, elapsed_ms, timeout_ms)
    } else {
        r == result
    }
}

/// `call_answer` for a call that took `elapsed_us` microseconds.
pub open spec fn answered_after(
    name: Seq<char>,
    elapsed_us: u64,
    timeout_ms: u32,
    result: Result<Value, String>,
    r: Result<Value, String>,
) -> bool {
    call_answer(name, (elapsed_us / 1000) as u64, timeout_ms, result, r)
}

/// A call that ran longer than its ceiling of `timeout_ms`
/// milliseconds, i.e. `elapsed_us` microseconds with at least
/// `timeout_ms + 1` whole milliseconds in them, answers the timeout
/// error naming those milliseconds, never the handler's answer; a call
/// within the ceiling answers exactly what the handler answered.
pub proof fn law_timeout_in_milliseconds(
    name: Seq<char>,
    elapsed_us: u64,
    timeout_ms: u32,
    result: Result<Value, String>,
    r: Result<Value, String>,
)
    requires
        answered_after(name, elapsed_us, timeout_ms, result, r),
    ensures
        elapsed_us >= 1000 * (timeout_ms + 1) ==> (r matches Err(e) && e@ == timeout_message(
            name,
            (elapsed_us / 1000) as u64,
            timeout_ms,
        )),
        elapsed_us < 1000 * (timeout_ms + 1) ==> r == result,
{
}

/// What a sync call returns once the handler has answered `result`
/// after `elapsed_ms`: a timeout error when the call overran the
/// ceiling, else the handler's answer.
pub fn call_outcome(name: &str, elapsed_ms: u64, timeout_ms: u32, result: Result<Value, String>) -> (r:
    Result<Value, String>)
    ensures
        call_answer(name@, elapsed_ms, timeout_ms, result, r),
        elapsed_ms > timeout_ms ==> (r matches Err(e) && e@ == timeout_message(
            name@,
            elapsed_ms,
            timeout_ms,
        )),
        elapsed_ms <= timeout_ms ==> r == result,
{
    if elapsed_ms > timeout_ms as u64 {
        let mut m = String::from_str(name);
        m.append(": timeout ");
        push_decimal(&mut m, elapsed_ms);
        m.append("ms exceeded budget ");
        push_decimal(&mut m, timeout_ms as u64);
        m.append("ms");
        return Err(m);
    }
    result
}

/// The message for a slot that holds no capability.
pub fn empty_slot_refusal(raw: u64) -> (r: String)
    ensures
        r@ == empty_slot_message(raw),
{
    let mut m = String::from_str("slot ");
    push_decimal(&mut m, raw);
    m.append(" empty or revoked");
    m
}

} // verus!
