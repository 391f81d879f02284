//! LLM health monitor — a circuit breaker for provider resilience, and the
//! per-phase model router.
//!
//! The breaker runs the Closed → Open → HalfOpen → Closed state machine:
//! enough consecutive failures open it, an open breaker rejects calls until
//! its cooldown has elapsed, the first call after the cooldown goes through
//! as the single probe (HalfOpen) and no other call goes through until its
//! outcome is recorded (or, if it is never recorded, until the probe timeout
//! has passed and a new probe goes), and a success closes it again.

use vstd::prelude::*;

use crate::config::{CircuitBreakerConfig, PhaseRoutingConfig};
use crate::error::ProjectEError;
use crate::types::CognitivePhase;

verus! {

#[verifier::external_type_specification]
#[verifier::external_body]
pub struct ExInstant(std::time::Instant);

/// Reads the monotonic clock (std's `Instant::now`).
#[verifier::external_body]
fn instant_now() -> std::time::Instant {
    std::time::Instant::now()
}

/// The time elapsed since `origin` on the monotonic clock (std's
/// `Instant::elapsed`). Nothing is promised of the value: it depends on the
/// clock.
#[verifier::external_body]
fn instant_elapsed(origin: &std::time::Instant) -> std::time::Duration {
    origin.elapsed()
}

/// A duration in whole milliseconds (std's `Duration::as_millis`). Nothing
/// is stated of the value, as the duration is opaque here.
#[verifier::external_body]
fn duration_millis(d: &std::time::Duration) -> u128 {
    d.as_millis()
}

/// Milliseconds elapsed since `origin`, saturating at `u64::MAX`.
fn elapsed_ms(origin: &std::time::Instant) -> u64 {
    let ms = duration_millis(&instant_elapsed(origin));
    if ms > 0xffff_ffff_ffff_ffffu128 {
        0xffff_ffff_ffff_ffffu64
    } else {
        ms as u64
    }
}

/// Circuit breaker state machine. Times are milliseconds on the monitor's
/// own clock.
#[derive(Debug, Clone, Copy, PartialEq, Eq, Structural)]
pub enum CircuitState {
    /// Healthy — requests pass through.
    Closed,
    /// Failing — requests are rejected until the cooldown has elapsed.
    Open { opened_at_ms: u64 },
    /// Testing recovery with a single probe request. A probe whose outcome
    /// has not been recorded within the probe timeout counts as lost, and
    /// the next check lets a new probe through.
    HalfOpen,
}

/// What the breaker's decisions depend on.
pub struct BreakerView {
    pub state: CircuitState,
    pub failure_count: u32,
    pub enabled: bool,
    pub failure_threshold: u32,
    pub cooldown_ms: u64,
    pub probe_timeout_ms: u64,
    /// When the current probe was let through (meaningful while HalfOpen).
    pub probe_started_ms: u64,
}

/// Time elapsed from `from` to `now`, zero if the clock reads earlier.
pub open spec fn elapsed_since(from: u64, now: u64) -> nat {
    if now >= from { (now - from) as nat } else { 0 }
}

/// Whether a call at `now` may go ahead: always on a disabled breaker; on
/// an enabled one while it is closed, from an open one as the single probe
/// once the cooldown has elapsed, and while HalfOpen only once the
/// outstanding probe has gone unrecorded for the probe timeout (it is then
/// taken as lost and a new probe goes ahead).
pub open spec fn call_allowed(b: BreakerView, now: u64) -> bool {
    !b.enabled || match b.state {
        CircuitState::Closed => true,
        CircuitState::Open { opened_at_ms } => elapsed_since(opened_at_ms, now) >= b.cooldown_ms,
        CircuitState::HalfOpen => elapsed_since(b.probe_started_ms, now) >= b.probe_timeout_ms,
    }
}

/// The breaker after the check before a call at `now`: a probe that goes
/// ahead (from an open breaker past its cooldown, or in place of a lost
/// one) leaves the breaker HalfOpen with the probe started at `now`;
/// nothing else changes.
pub open spec fn after_check(b: BreakerView, now: u64) -> BreakerView {
    if b.enabled && !(b.state is Closed) && call_allowed(b, now) {
        BreakerView { state: CircuitState::HalfOpen, probe_started_ms: now, ..b }
    } else {
        b
    }
}

/// The breaker after recording a call's outcome at `now`: a success resets
/// the failure count and closes it; a failure counts, and opens a closed or
/// half-open breaker once the count reaches the threshold.
pub open spec fn after_outcome(b: BreakerView, success: bool, now: u64) -> BreakerView {
    if !b.enabled {
        b
    } else if success {
        BreakerView { state: CircuitState::Closed, failure_count: 0, ..b }
    } else {
        let count = (b.failure_count + 1) as u32;
        let state = if count >= b.failure_threshold && !(b.state is Open) {
            CircuitState::Open { opened_at_ms: now }
        } else {
            b.state
        };
        BreakerView { state, failure_count: count, ..b }
    }
}

/// Monitors LLM provider health and implements the circuit breaker pattern.
pub struct LlmHealthMonitor {
    state: CircuitState,
    failure_count: u32,
    config: CircuitBreakerConfig,
    provider_name: String,
    clock_origin: std::time::Instant,
    probe_started_ms: u64,
}

impl View for LlmHealthMonitor {
    type V = BreakerView;

    closed spec fn view(&self) -> BreakerView {
        BreakerView {
            state: self.state,
            failure_count: self.failure_count,
            enabled: self.config.enabled,
            failure_threshold: self.config.failure_threshold,
            cooldown_ms: self.config.cooldown_ms,
            probe_timeout_ms: self.config.probe_timeout_ms,
            probe_started_ms: self.probe_started_ms,
        }
    }
}

impl LlmHealthMonitor {
    /// The name of the provider the monitor watches.
    pub closed spec fn provider(&self) -> Seq<char> {
        self.provider_name@
    }

    pub fn new(provider_name: String, config: CircuitBreakerConfig) -> (r: Self)
        ensures
            r@.state == CircuitState::Closed,
            r@.failure_count == 0,
            r@.enabled == config.enabled,
            r@.failure_threshold == config.failure_threshold,
            r@.cooldown_ms == config.cooldown_ms,
            r@.probe_timeout_ms == config.probe_timeout_ms,
            r.provider() == provider_name@,
    {
        LlmHealthMonitor {
            state: CircuitState::Closed,
            failure_count: 0,
            config,
            provider_name,
            clock_origin: instant_now(),
            probe_started_ms: 0,
        }
    }

    /// Check, at time `now_ms` on the monitor's clock, whether an LLM call
    /// is allowed. Returns `Err(CircuitOpen)` while the circuit is open and
    /// its cooldown has not elapsed, and while the one probe let through
    /// after the cooldown has no recorded outcome yet.
    pub fn check_before_call_at(&mut self, now_ms: u64) -> (r: Result<(), ProjectEError>)
        ensures
            final(self)@ == after_check(old(self)@, now_ms),
            final(self).provider() == old(self).provider(),
            r is Ok <==> call_allowed(old(self)@, now_ms),
            r matches Err(e) ==> (e matches ProjectEError::CircuitOpen { provider }
                && provider@ == old(self).provider()),
    {
        if !self.config.enabled {
            return Ok(());
        }
        match self.state {
            CircuitState::Closed => Ok(()),
            CircuitState::HalfOpen => {
                let started = self.probe_started_ms;
                let elapsed: u64 = if now_ms >= started { now_ms - started } else { 0 };
                if elapsed >= self.config.probe_timeout_ms {
                    self.probe_started_ms = now_ms;
                    Ok(())
                } else {
                    Err(ProjectEError::CircuitOpen { provider: self.provider_name.clone() })
                }
            },
            CircuitState::Open { opened_at_ms } => {
                let elapsed: u64 = if now_ms >= opened_at_ms { now_ms - opened_at_ms } else { 0 };
                if elapsed >= self.config.cooldown_ms {
                    self.state = CircuitState::HalfOpen;
                    self.probe_started_ms = now_ms;
                    Ok(())
                } else {
                    Err(ProjectEError::CircuitOpen { provider: self.provider_name.clone() })
                }
            },
        }
    }

    /// Check whether an LLM call is allowed now. Returns `Err(CircuitOpen)`
    /// if the circuit is open and its cooldown has not elapsed, or a probe
    /// is still outstanding.
    pub fn check_before_call(&mut self) -> (r: Result<(), ProjectEError>)
        ensures
            exists|now: u64|
                {
                    &&& final(self)@ == after_check(old(self)@, now)
                    &&& (r is Ok <==> call_allowed(old(self)@, now))
                },
            final(self).provider() == old(self).provider(),
            r matches Err(e) ==> (e matches ProjectEError::CircuitOpen { provider }
                && provider@ == old(self).provider()),
    {
        let now = elapsed_ms(&self.clock_origin);
        self.check_before_call_at(now)
    }

    /// Record the outcome of an LLM call made at `now_ms`. Updates the
    /// failure count and moves the breaker as needed.
    pub fn record_outcome_at(&mut self, success: bool, now_ms: u64)
        requires
            old(self)@.failure_count < u32::MAX,
        ensures
            final(self)@ == after_outcome(old(self)@, success, now_ms),
            final(self).provider() == old(self).provider(),
    {
        if !self.config.enabled {
            return;
        }
        if success {
            self.failure_count = 0;
            self.state = CircuitState::Closed;
        } else {
            self.failure_count = self.failure_count + 1;
            if self.failure_count >= self.config.failure_threshold {
                match self.state {
                    CircuitState::Open { .. } => {},
                    _ => {
                        self.state = CircuitState::Open { opened_at_ms: now_ms };
                    },
                }
            }
        }
    }

    /// Record the outcome of an LLM call made now.
    pub fn record_outcome(&mut self, success: bool)
        requires
            old(self)@.failure_count < u32::MAX,
        ensures
            exists|now: u64| final(self)@ == after_outcome(old(self)@, success, now),
            final(self).provider() == old(self).provider(),
    {
        let now = elapsed_ms(&self.clock_origin);
        self.record_outcome_at(success, now);
    }

    /// The monitor's clock: milliseconds since the monitor was created.
    /// Nothing is promised of the reading.
    pub fn now_ms(&self) -> u64 {
        elapsed_ms(&self.clock_origin)
    }

    /// Returns the current circuit state.
    pub fn current_state(&self) -> (r: CircuitState)
        ensures
            r == self@.state,
    {
        self.state
    }

    /// Returns the current failure count.
    pub fn failure_count(&self) -> (r: u32)
        ensures
            r == self@.failure_count,
    {
        self.failure_count
    }

    /// Returns the provider name this monitor tracks.
    pub fn provider_name(&self) -> (r: &str)
        ensures
            r@ == self.provider(),
    {
        self.provider_name.as_str()
    }
}

/// The breaker's invariant: an enabled breaker that is not closed has seen
/// at least `failure_threshold` consecutive failures.
pub open spec fn breaker_inv(b: BreakerView) -> bool {
    b.enabled && !(b.state is Closed) ==> b.failure_count >= b.failure_threshold
}

/// Every operation keeps the breaker's invariant.
pub proof fn lemma_breaker_inv_preserved(b: BreakerView, success: bool, now: u64)
    requires
        breaker_inv(b),
        b.failure_count < u32::MAX,
    ensures
        breaker_inv(after_check(b, now)),
        breaker_inv(after_outcome(b, success, now)),
{
}

/// A breaker that starts closed stays closed under successes and under
/// fewer than `failure_threshold` failures, and opens at the failure that
/// reaches the threshold; the open breaker then rejects calls until its
/// cooldown has elapsed.
pub proof fn lemma_opens_at_threshold(b: BreakerView, now: u64)
    requires
        b.enabled,
        b.state is Closed,
        b.failure_count < u32::MAX,
    ensures
        (b.failure_count + 1 >= b.failure_threshold) ==> after_outcome(b, false, now).state
            == (CircuitState::Open { opened_at_ms: now }),
        (b.failure_count + 1 < b.failure_threshold) ==> after_outcome(b, false, now).state
            is Closed,
        b.cooldown_ms > 0 ==> !call_allowed(after_outcome(b, false, now), now) || (b.failure_count
            + 1 < b.failure_threshold),
{
}

/// A success always closes the breaker and clears its failure count.
pub proof fn lemma_success_resets(b: BreakerView, now: u64)
    requires
        b.enabled,
    ensures
        after_outcome(b, true, now).state is Closed,
        after_outcome(b, true, now).failure_count == 0,
{
}

/// A disabled breaker allows every call and never changes.
pub proof fn lemma_disabled_always_allows(b: BreakerView, success: bool, now: u64)
    requires
        !b.enabled,
    ensures
        call_allowed(b, now),
        after_check(b, now) == b,
        after_outcome(b, success, now) == b,
{
}

/// Recovery: once the cooldown has elapsed, an open breaker lets a single
/// probe through and moves to HalfOpen; while the probe is outstanding
/// (within the probe timeout) every further call is refused and the breaker
/// stays as it is; a successful probe closes it, and (with the invariant) a
/// failed probe opens it again.
pub proof fn lemma_recovery(b: BreakerView, t: u64, now: u64, later: u64)
    requires
        b.enabled,
        b.state == (CircuitState::Open { opened_at_ms: t }),
        breaker_inv(b),
        b.failure_count < u32::MAX,
        now >= t,
        now - t >= b.cooldown_ms,
    ensures
        call_allowed(b, now),
        after_check(b, now).state is HalfOpen,
        later >= now && later - now < b.probe_timeout_ms ==> !call_allowed(after_check(b, now), later),
        later >= now && later - now < b.probe_timeout_ms ==> after_check(after_check(b, now), later) == after_check(
            b,
            now,
        ),
        after_outcome(after_check(b, now), true, later).state is Closed,
        after_outcome(after_check(b, now), false, later).state == (CircuitState::Open { opened_at_ms: later }),
{
}

/// A lost probe never shuts the breaker for good: once a half-open
/// breaker's probe has gone unrecorded for the probe timeout, the next check
/// lets a new probe through and restarts the wait.
pub proof fn lemma_lost_probe_is_replaced(b: BreakerView, now: u64)
    requires
        b.enabled,
        b.state is HalfOpen,
        now >= b.probe_started_ms,
        now - b.probe_started_ms >= b.probe_timeout_ms,
    ensures
        call_allowed(b, now),
        after_check(b, now) == (BreakerView { probe_started_ms: now, ..b }),
{
}

/// Per-phase model router.
pub struct PhaseModelRouter {
    routing: PhaseRoutingConfig,
}

/// The model configured for a phase.
pub open spec fn routed_model(routing: PhaseRoutingConfig, phase: CognitivePhase) -> Seq<char> {
    match phase {
        CognitivePhase::Perception => routing.perception@,
        CognitivePhase::Interpretation => routing.interpretation@,
        CognitivePhase::Deliberation => routing.deliberation@,
        CognitivePhase::Action => routing.action@,
        CognitivePhase::Evaluation => routing.evaluation@,
        CognitivePhase::MetaAdaptation => routing.meta_adaptation@,
    }
}

impl PhaseModelRouter {
    /// The routing table the router reads.
    pub closed spec fn routing(&self) -> PhaseRoutingConfig {
        self.routing
    }

    pub fn new(routing: PhaseRoutingConfig) -> (r: Self)
        ensures
            r.routing() == routing,
    {
        PhaseModelRouter { routing }
    }

    /// Returns the model name assigned to a given cognitive phase.
    pub fn model_for_phase(&self, phase: CognitivePhase) -> (r: &str)
        ensures
            r@ == routed_model(self.routing(), phase),
    {
        match phase {
            CognitivePhase::Perception => self.routing.perception.as_str(),
            CognitivePhase::Interpretation => self.routing.interpretation.as_str(),
            CognitivePhase::Deliberation => self.routing.deliberation.as_str(),
            CognitivePhase::Action => self.routing.action.as_str(),
            CognitivePhase::Evaluation => self.routing.evaluation.as_str(),
            CognitivePhase::MetaAdaptation => self.routing.meta_adaptation.as_str(),
        }
    }
}

} // verus!
