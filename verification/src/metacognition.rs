//! Metacognition: the self-model that sets the operating mode, the five
//! homeostatic health indicators, the post-cycle evaluation record and the
//! meta-adaptation rules that tune the decision threshold.
//!
//! Scores, rates and thresholds are ratios between 0 and 1 held in
//! thousandths (700 stands for 0.7).

use vstd::prelude::*;

use crate::config::{HealthConfig, MetaConfig};
use crate::cycle::CycleMetrics;
use crate::types::OperatingMode;

verus! {

// ---------------------------------------------------------------------------
// Self-model
// ---------------------------------------------------------------------------

/// System self-assessment built at the start of each deliberation phase.
#[derive(Debug, Clone)]
pub struct SystemSelfModel {
    /// Fraction of identified gaps with active modules.
    pub coverage_score: u32,
    /// Module success rate over the sliding window.
    pub stability_score: u32,
    /// Forge success rate: successful / total attempts.
    pub efficiency_score: u32,
    /// Fraction of active modules receiving events.
    pub utilization_score: u32,
    /// Recency of the data feeding active modules (0 stale, 1000 fresh).
    pub freshness_signal: u32,
    /// Operating mode derived from the scores.
    pub operating_mode: OperatingMode,
    /// Last cycle metrics, for trend analysis.
    pub reflection_window: Vec<CycleMetrics>,
}

/// The operating mode for an efficiency and a stability: their mean below
/// the recovery threshold means recovery, below the cautious threshold
/// caution, else nominal operation.
pub open spec fn mode_for(efficiency: u32, stability: u32, recovery: u32, cautious: u32) -> OperatingMode {
    let twice_mean = efficiency + stability;
    if twice_mean < 2 * recovery {
        OperatingMode::Recovery
    } else if twice_mean < 2 * cautious {
        OperatingMode::Cautious
    } else {
        OperatingMode::Nominal
    }
}

/// Builds a `SystemSelfModel` from health scores and cycle history.
#[derive(Debug, Clone)]
pub struct SelfModelBuilder {
    pub recovery_threshold: u32,
    pub cautious_threshold: u32,
}

impl SelfModelBuilder {
    pub fn new(recovery_threshold: u32, cautious_threshold: u32) -> (r: Self)
        ensures
            r.recovery_threshold == recovery_threshold,
            r.cautious_threshold == cautious_threshold,
    {
        SelfModelBuilder { recovery_threshold, cautious_threshold }
    }

    /// Build a self-model from the health scores and history; the mode comes
    /// from efficiency and stability.
    pub fn build(
        &self,
        coverage: u32,
        stability: u32,
        efficiency: u32,
        utilization: u32,
        freshness: u32,
        history: Vec<CycleMetrics>,
    ) -> (m: SystemSelfModel)
        ensures
            m.coverage_score == coverage,
            m.stability_score == stability,
            m.efficiency_score == efficiency,
            m.utilization_score == utilization,
            m.freshness_signal == freshness,
            m.operating_mode == mode_for(efficiency, stability, self.recovery_threshold, self.cautious_threshold),
            m.reflection_window == history,
    {
        let operating_mode = self.determine_mode(efficiency, stability);
        SystemSelfModel {
            coverage_score: coverage,
            stability_score: stability,
            efficiency_score: efficiency,
            utilization_score: utilization,
            freshness_signal: freshness,
            operating_mode,
            reflection_window: history,
        }
    }

    /// The operating mode for an efficiency and a stability.
    pub fn determine_mode(&self, efficiency: u32, stability: u32) -> (r: OperatingMode)
        ensures
            r == mode_for(efficiency, stability, self.recovery_threshold, self.cautious_threshold),
    {
        let twice_mean: u64 = efficiency as u64 + stability as u64;
        if twice_mean < 2 * (self.recovery_threshold as u64) {
            OperatingMode::Recovery
        } else if twice_mean < 2 * (self.cautious_threshold as u64) {
            OperatingMode::Cautious
        } else {
            OperatingMode::Nominal
        }
    }
}

/// Health only moves the mode one way: with the recovery threshold at most
/// the cautious one, a healthier system (higher efficiency and stability) is
/// never in a more restrictive mode.
pub proof fn lemma_mode_monotone(e1: u32, s1: u32, e2: u32, s2: u32, recovery: u32, cautious: u32)
    requires
        recovery <= cautious,
        e1 + s1 <= e2 + s2,
    ensures
        mode_for(e1, s1, recovery, cautious) == OperatingMode::Nominal ==> mode_for(e2, s2, recovery, cautious)
            == OperatingMode::Nominal,
        mode_for(e2, s2, recovery, cautious) == OperatingMode::Recovery ==> mode_for(e1, s1, recovery, cautious)
            == OperatingMode::Recovery,
{
}

// ---------------------------------------------------------------------------
// Homeostatic indicators
// ---------------------------------------------------------------------------

/// The five homeostatic health indicators.
#[derive(Debug, Clone, Copy)]
pub struct HomeostaticIndicators {
    /// Active modules over identified needs.
    pub coverage: u32,
    /// Modules without regression over active modules.
    pub stability: u32,
    /// Successful generations over attempts.
    pub efficiency: u32,
    /// Modules receiving events over active modules.
    pub utilization: u32,
    /// One minus the mean data age over the acceptable age.
    pub freshness: u32,
}

/// The indicators below their minimum, in the order coverage, stability,
/// efficiency, utilization, freshness: each with its name, value and
/// minimum.
pub open spec fn violations_spec(h: HomeostaticIndicators, c: HealthConfig) -> Seq<(Seq<char>, u32, u32)> {
    let s0 = Seq::<(Seq<char>, u32, u32)>::empty();
    let s1 = if h.coverage < c.min_coverage { s0.push(("coverage"@, h.coverage, c.min_coverage)) } else { s0 };
    let s2 = if h.stability < c.min_stability { s1.push(("stability"@, h.stability, c.min_stability)) } else { s1 };
    let s3 = if h.efficiency < c.min_efficiency { s2.push(("efficiency"@, h.efficiency, c.min_efficiency)) } else { s2 };
    let s4 = if h.utilization < c.min_utilization {
        s3.push(("utilization"@, h.utilization, c.min_utilization))
    } else {
        s3
    };
    if h.freshness < c.min_freshness { s4.push(("freshness"@, h.freshness, c.min_freshness)) } else { s4 }
}

pub open spec fn all_healthy(h: HomeostaticIndicators, c: HealthConfig) -> bool {
    &&& h.coverage >= c.min_coverage
    &&& h.stability >= c.min_stability
    &&& h.efficiency >= c.min_efficiency
    &&& h.utilization >= c.min_utilization
    &&& h.freshness >= c.min_freshness
}

impl HomeostaticIndicators {
    /// Whether every indicator meets its threshold.
    pub fn all_above_thresholds(&self, config: &HealthConfig) -> (r: bool)
        ensures
            r == all_healthy(*self, *config),
    {
        self.coverage >= config.min_coverage && self.stability >= config.min_stability && self.efficiency
            >= config.min_efficiency && self.utilization >= config.min_utilization && self.freshness
            >= config.min_freshness
    }

    /// The indicators below their thresholds: name, value and threshold.
    pub fn violations(&self, config: &HealthConfig) -> (r: Vec<(&'static str, u32, u32)>)
        ensures
            r@.len() == violations_spec(*self, *config).len(),
            forall|i: int|
                0 <= i < r@.len() ==> {
                    let (n, v, t) = violations_spec(*self, *config)[i];
                    &&& (#[trigger] r@[i]).0@ == n
                    &&& r@[i].1 == v
                    &&& r@[i].2 == t
                },
            r@.len() == 0 <==> all_healthy(*self, *config),
    {
        proof {
            lemma_healthy_iff_no_violations(*self, *config);
        }
        let mut out: Vec<(&'static str, u32, u32)> = Vec::new();
        if self.coverage < config.min_coverage {
            out.push(("coverage", self.coverage, config.min_coverage));
        }
        if self.stability < config.min_stability {
            out.push(("stability", self.stability, config.min_stability));
        }
        if self.efficiency < config.min_efficiency {
            out.push(("efficiency", self.efficiency, config.min_efficiency));
        }
        if self.utilization < config.min_utilization {
            out.push(("utilization", self.utilization, config.min_utilization));
        }
        if self.freshness < config.min_freshness {
            out.push(("freshness", self.freshness, config.min_freshness));
        }
        out
    }
}

/// A system is healthy exactly when it reports no violation.
pub proof fn lemma_healthy_iff_no_violations(h: HomeostaticIndicators, c: HealthConfig)
    ensures
        all_healthy(h, c) <==> violations_spec(h, c).len() == 0,
        violations_spec(h, c).len() <= 5,
{
}

// ---------------------------------------------------------------------------
// Evaluation and meta-adaptation
// ---------------------------------------------------------------------------

/// Per-skill effectiveness.
#[derive(Debug, Clone)]
pub struct SkillScore {
    pub skill_name: String,
    pub success_rate: u32,
    pub activations: usize,
}

/// Actions taken by homeostatic regulation (module ids are UUID values).
#[derive(Debug, Clone)]
pub enum HomeostaticAction {
    PrunedStaleData { count: usize },
    ArchivedGapReports { count: usize },
    DetectedRedundancy { module_a: u128, module_b: u128, similarity: u32 },
    AutoDeprecated { module_id: u128, failure_rate: u32 },
    RemovedDeprecated { module_id: u128, deprecated_days: u32 },
}

/// A pair of modules detected as redundant.
#[derive(Debug, Clone)]
pub struct RedundancyPair {
    pub module_a: u128,
    pub module_b: u128,
    pub similarity: u32,
}

/// The evaluation of a completed cycle (the coverage change may be
/// negative; times are milliseconds since the Unix epoch).
#[derive(Debug, Clone)]
pub struct CycleEvaluation {
    pub cycle_id: u128,
    pub modules_published: Vec<u128>,
    pub modules_rejected: usize,
    pub forge_efficiency: u32,
    pub coverage_delta: i32,
    pub skill_effectiveness: Vec<SkillScore>,
    pub health_indicators: HomeostaticIndicators,
    pub homeostatic_actions: Vec<HomeostaticAction>,
    pub evaluated_at_ms: i64,
}

/// Adjusted parameters produced by meta-adaptation; only changed ones are
/// present (confidences, scores and weights in thousandths).
#[derive(Debug, Clone)]
pub struct AdaptiveConfig {
    pub min_decision_confidence: Option<u32>,
    pub min_relevance_score: Option<u32>,
    pub max_actions_per_cycle: Option<usize>,
    pub novelty_weight: Option<u32>,
    pub coverage_weight: Option<u32>,
    pub magnitude_weight: Option<u32>,
}

impl Default for AdaptiveConfig {
    fn default() -> (r: Self)
        ensures
            r.min_decision_confidence is None,
            r.min_relevance_score is None,
            r.max_actions_per_cycle is None,
            r.novelty_weight is None,
            r.coverage_weight is None,
            r.magnitude_weight is None,
    {
        AdaptiveConfig {
            min_decision_confidence: None,
            min_relevance_score: None,
            max_actions_per_cycle: None,
            novelty_weight: None,
            coverage_weight: None,
            magnitude_weight: None,
        }
    }
}

/// The sum of the forge efficiencies of the last `n` evaluations.
pub open spec fn recent_efficiency_sum(evals: Seq<CycleEvaluation>, n: nat) -> nat
    decreases n,
{
    if n == 0 || evals.len() == 0 {
        0
    } else {
        evals.last().forge_efficiency as nat + recent_efficiency_sum(evals.drop_last(), (n - 1) as nat)
    }
}

/// The decision confidence meta-adaptation sets, if any: over the last
/// `window` evaluations, a mean efficiency below 0.4 raises the base 0.7 by
/// the step (to at most 0.95), above 0.7 lowers it by the step (to at least
/// 0.5); too short a history changes nothing.
pub open spec fn adapted_confidence(evals: Seq<CycleEvaluation>, window: nat, step: u32) -> Option<u32> {
    if evals.len() < window || window == 0 {
        None
    } else {
        let sum = recent_efficiency_sum(evals, window);
        if sum < 400 * window {
            Some(if 700 + step > 950 { 950u32 } else { (700 + step) as u32 })
        } else if sum > 700 * window {
            Some(if step > 200 { 500u32 } else { (700 - step) as u32 })
        } else {
            None
        }
    }
}

/// Adaptation moves in bounded steps: an adjusted decision confidence stays
/// between 0.5 and 0.95, and lies within one step of the base 0.7.
pub proof fn lemma_adaptation_is_bounded(evals: Seq<CycleEvaluation>, window: nat, step: u32)
    ensures
        adapted_confidence(evals, window, step) matches Some(c) ==> {
            &&& 500 <= c <= 950
            &&& c <= 700 + step
            &&& 700 <= c + step
        },
{
}

/// The last `n` evaluations all have a forge efficiency below 0.3.
pub open spec fn recent_all_failing(evals: Seq<CycleEvaluation>, n: nat) -> bool {
    forall|j: int| evals.len() - n <= j < evals.len() ==> #[trigger] evals[j].forge_efficiency < 300
}

/// Engine that analyzes evaluation history and produces adaptive changes.
#[derive(Debug, Clone)]
pub struct MetaAdaptationEngine {
    pub config: MetaConfig,
}

impl MetaAdaptationEngine {
    pub fn new(config: MetaConfig) -> (r: Self)
        ensures
            r.config == config,
    {
        MetaAdaptationEngine { config }
    }

    /// Run adaptation on the evaluation history window; only the decision
    /// confidence is ever adjusted.
    pub fn adapt(&self, evaluations: &Vec<CycleEvaluation>) -> (r: AdaptiveConfig)
        ensures
            r.min_decision_confidence == adapted_confidence(
                evaluations@,
                self.config.adaptation_frequency_cycles as nat,
                self.config.adjustment_max_step_thousandths,
            ),
            r.min_relevance_score is None,
            r.max_actions_per_cycle is None,
            r.novelty_weight is None,
            r.coverage_weight is None,
            r.magnitude_weight is None,
    {
        let mut adjusted = AdaptiveConfig::default();
        let window = self.config.adaptation_frequency_cycles;
        let step = self.config.adjustment_max_step_thousandths;
        if evaluations.len() < window || window == 0 {
            return adjusted;
        }
        let sum = efficiency_sum_of_last(evaluations, window);
        let w: u128 = window as u128;
        if sum < 400 * w {
            adjusted.min_decision_confidence = Some(if step > 250 { 950 } else { 700 + step });
        } else if sum > 700 * w {
            adjusted.min_decision_confidence = Some(if step > 200 { 500 } else { 700 - step });
        }
        adjusted
    }

    /// Whether forge efficiency stayed below 0.3 for the last
    /// `lesson_repeat_threshold` cycles, so that a lesson is worth
    /// extracting.
    pub fn should_extract_lesson(&self, evaluations: &Vec<CycleEvaluation>) -> (r: bool)
        ensures
            r == (evaluations@.len() >= self.config.lesson_repeat_threshold && recent_all_failing(
                evaluations@,
                self.config.lesson_repeat_threshold as nat,
            )),
    {
        let n = self.config.lesson_repeat_threshold;
        if evaluations.len() < n {
            return false;
        }
        let len = evaluations.len();
        let mut k: usize = 0;
        while k < n
            invariant
                n == self.config.lesson_repeat_threshold,
                n <= len,
                len == evaluations@.len(),
                k <= n,
                forall|j: int| len - k <= j < len ==> #[trigger] evaluations@[j].forge_efficiency < 300,
            decreases n - k,
        {
            if evaluations[len - 1 - k].forge_efficiency >= 300 {
                proof {
                    let j: int = len - 1 - k;
                    assert(evaluations@.len() - (n as nat) <= j < evaluations@.len());
                    assert(evaluations@[j].forge_efficiency >= 300);
                    assert(!recent_all_failing(evaluations@, n as nat));
                }
                return false;
            }
            k = k + 1;
        }
        true
    }
}

/// The sum of the forge efficiencies of the last `n` evaluations.
fn efficiency_sum_of_last(evals: &Vec<CycleEvaluation>, n: usize) -> (r: u128)
    requires
        n <= evals@.len(),
    ensures
        r == recent_efficiency_sum(evals@, n as nat),
{
    let len = evals.len();
    let mut sum: u128 = 0;
    let mut k: usize = 0;
    assert(evals@.take(len as int) =~= evals@);
    while k < n
        invariant
            n <= len,
            len == evals@.len(),
            k <= n,
            sum <= k * 0xffff_ffffu128,
            recent_efficiency_sum(evals@, n as nat) == sum + recent_efficiency_sum(
                evals@.take(len - k),
                (n - k) as nat,
            ),
        decreases n - k,
    {
        let e = &evals[len - 1 - k];
        proof {
            let t = evals@.take(len - k);
            assert(t.drop_last() =~= evals@.take(len - k - 1));
            assert(t.last() == *e);
        }
        sum = sum + e.forge_efficiency as u128;
        k = k + 1;
    }
    proof {
        assert(recent_efficiency_sum(evals@.take(len - n), 0) == 0);
    }
    sum
}

} // verus!
