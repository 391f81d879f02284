//! The checks the bridge to the provider makes around each LLM call, in
//! order: the per-cycle call budget, then the layer's circuit breaker (the
//! host's cost guard is asked after both admit the call), and after the
//! call the recording of its outcome on the breaker.

use vstd::prelude::*;

use crate::error::BridgeError;
use crate::llm_health::{after_check, after_outcome, call_allowed, BreakerView, LlmHealthMonitor};
use crate::text::{chars_of, decimal, push_all, push_decimal, string_of};

verus! {

/// The reason a call beyond the cycle's budget is refused.
pub open spec fn budget_reason(max_calls_per_cycle: nat) -> Seq<char> {
    "cognitive cycle LLM call limit ("@ + decimal(max_calls_per_cycle) + ") reached"@
}

/// The per-cycle budget: the call with 0-based index `call_index` is
/// allowed while it is below `max_calls_per_cycle`, and refused with
/// `BudgetExceeded` from there on.
pub fn check_call_budget(call_index: usize, max_calls_per_cycle: usize) -> (r: Result<(), BridgeError>)
    ensures
        r is Ok <==> call_index < max_calls_per_cycle,
        r matches Err(e) ==> e matches BridgeError::BudgetExceeded { reason } && reason@ == budget_reason(
            max_calls_per_cycle as nat,
        ),
{
    if call_index >= max_calls_per_cycle {
        let mut out = chars_of("cognitive cycle LLM call limit (");
        push_decimal(&mut out, max_calls_per_cycle as u64);
        push_all(&mut out, &chars_of(") reached"));
        return Err(BridgeError::BudgetExceeded { reason: string_of(out.as_slice()) });
    }
    Ok(())
}

/// Why a call is refused while the breaker is open:
/// `circuit breaker open for provider '<provider>'`.
pub open spec fn circuit_open_reason(provider: Seq<char>) -> Seq<char> {
    "circuit breaker open for provider '"@ + provider + "'"@
}

fn circuit_open_text(provider: &str) -> (r: String)
    ensures
        r@ == circuit_open_reason(provider@),
{
    let mut out = chars_of("circuit breaker open for provider '");
    push_all(&mut out, &chars_of(provider));
    push_all(&mut out, &chars_of("'"));
    string_of(out.as_slice())
}

/// The right to record one call's outcome on the breaker: handed out only
/// when the breaker let the call through, and used up by the recording.
pub struct CallPermit {
    granted: (),
}

/// How the breaker stands after recording an outcome at `now`: the count
/// saturates instead of overflowing, so a breaker at the largest count is
/// left as it is.
pub open spec fn settled(b: BreakerView, success: bool, now: u64) -> BreakerView {
    if b.failure_count < u32::MAX {
        after_outcome(b, success, now)
    } else {
        b
    }
}

/// Admit a call at `now_ms`: the cycle's budget is checked first, and only
/// a call within it is put to the breaker. A refused budget leaves the
/// breaker untouched; a call the breaker refuses gets `CircuitOpen` with
/// the breaker's reason. An admitted call carries the permit to record its
/// outcome. The host's cost guard is asked after this.
pub fn admit_call_at(
    monitor: &mut LlmHealthMonitor,
    call_index: usize,
    max_calls_per_cycle: usize,
    now_ms: u64,
) -> (r: Result<CallPermit, BridgeError>)
    ensures
        call_index >= max_calls_per_cycle ==> {
            &&& final(monitor)@ == old(monitor)@
            &&& r matches Err(e) && (e matches BridgeError::BudgetExceeded { reason } && reason@ == budget_reason(
                max_calls_per_cycle as nat,
            ))
        },
        call_index < max_calls_per_cycle ==> {
            &&& final(monitor)@ == after_check(old(monitor)@, now_ms)
            &&& (r is Ok <==> call_allowed(old(monitor)@, now_ms))
            &&& r matches Err(e) ==> (e matches BridgeError::CircuitOpen { reason } && reason@
                == circuit_open_reason(old(monitor).provider()))
        },
        final(monitor).provider() == old(monitor).provider(),
{
    check_call_budget(call_index, max_calls_per_cycle)?;
    match monitor.check_before_call_at(now_ms) {
        Ok(()) => Ok(CallPermit { granted: () }),
        Err(_) => Err(BridgeError::CircuitOpen { reason: circuit_open_text(monitor.provider_name()) }),
    }
}

/// Admit a call now; as `admit_call_at`, at whatever time the monitor's
/// clock reads.
pub fn admit_call(monitor: &mut LlmHealthMonitor, call_index: usize, max_calls_per_cycle: usize) -> (r: Result<
    CallPermit,
    BridgeError,
>)
    ensures
        call_index >= max_calls_per_cycle ==> {
            &&& final(monitor)@ == old(monitor)@
            &&& r matches Err(e) && (e matches BridgeError::BudgetExceeded { reason } && reason@ == budget_reason(
                max_calls_per_cycle as nat,
            ))
        },
        call_index < max_calls_per_cycle ==> exists|now: u64|
            {
                &&& final(monitor)@ == after_check(old(monitor)@, now)
                &&& (r is Ok <==> call_allowed(old(monitor)@, now))
            },
        call_index < max_calls_per_cycle && r is Err ==> (r matches Err(e) && e matches BridgeError::CircuitOpen {
            reason,
        } && reason@ == circuit_open_reason(old(monitor).provider())),
        final(monitor).provider() == old(monitor).provider(),
{
    if call_index >= max_calls_per_cycle {
        return admit_call_at(monitor, call_index, max_calls_per_cycle, 0);
    }
    let now = monitor.now_ms();
    admit_call_at(monitor, call_index, max_calls_per_cycle, now)
}

/// Record, at `now_ms`, the outcome of a call that `permit` admitted; the
/// permit is used up, so each admitted call is recorded at most once.
pub fn settle_call_at(monitor: &mut LlmHealthMonitor, permit: CallPermit, success: bool, now_ms: u64)
    ensures
        final(monitor)@ == settled(old(monitor)@, success, now_ms),
        final(monitor).provider() == old(monitor).provider(),
{
    let CallPermit { granted: _ } = permit;
    if monitor.failure_count() < u32::MAX {
        monitor.record_outcome_at(success, now_ms);
    }
}

/// Record the outcome of an admitted call now.
pub fn settle_call(monitor: &mut LlmHealthMonitor, permit: CallPermit, success: bool)
    ensures
        exists|now: u64| final(monitor)@ == settled(old(monitor)@, success, now),
        final(monitor).provider() == old(monitor).provider(),
{
    let now = monitor.now_ms();
    settle_call_at(monitor, permit, success, now);
}

} // verus!
