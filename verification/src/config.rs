//! The sections of the layered configuration, with their defaults. Ratios
//! (confidences, thresholds, weights) are held in thousandths, durations in
//! milliseconds or seconds, as the field names say.

use vstd::prelude::*;

use crate::text::{chars_of, string_of};

verus! {

/// A `String` holding the given literal.
pub fn owned(s: &str) -> (r: String)
    ensures
        r@ == s@,
{
    string_of(chars_of(s).as_slice())
}

#[derive(Debug, Clone)]
pub struct InstanceConfig {
    pub name: String,
    pub sector: String,
    pub region: String,
}

impl Default for InstanceConfig {
    fn default() -> (r: Self)
        ensures
            r.name@ == "default"@,
            r.sector@ == "general"@,
            r.region@ == "global"@,
    {
        InstanceConfig { name: owned("default"), sector: owned("general"), region: owned("global") }
    }
}

#[derive(Debug, Clone)]
pub struct CircuitBreakerConfig {
    pub enabled: bool,
    pub probe_interval_ms: u64,
    pub failure_threshold: u32,
    pub cooldown_ms: u64,
    pub probe_timeout_ms: u64,
}

impl Default for CircuitBreakerConfig {
    fn default() -> (r: Self)
        ensures
            r.enabled,
            r.probe_interval_ms == 30_000,
            r.failure_threshold == 5,
            r.cooldown_ms == 60_000,
            r.probe_timeout_ms == 5_000,
    {
        CircuitBreakerConfig {
            enabled: true,
            probe_interval_ms: 30_000,
            failure_threshold: 5,
            cooldown_ms: 60_000,
            probe_timeout_ms: 5_000,
        }
    }
}

#[derive(Debug, Clone)]
pub struct PhaseRoutingConfig {
    pub perception: String,
    pub interpretation: String,
    pub deliberation: String,
    pub action: String,
    pub evaluation: String,
    pub meta_adaptation: String,
}

impl Default for PhaseRoutingConfig {
    fn default() -> (r: Self)
        ensures
            r.perception@ == "model_for_analysis"@,
            r.interpretation@ == "model_for_analysis"@,
            r.deliberation@ == "model_for_analysis"@,
            r.action@ == "model_for_generation"@,
            r.evaluation@ == "model_for_analysis"@,
            r.meta_adaptation@ == "model_for_analysis"@,
    {
        PhaseRoutingConfig {
            perception: owned("model_for_analysis"),
            interpretation: owned("model_for_analysis"),
            deliberation: owned("model_for_analysis"),
            action: owned("model_for_generation"),
            evaluation: owned("model_for_analysis"),
            meta_adaptation: owned("model_for_analysis"),
        }
    }
}

#[derive(Debug, Clone)]
pub struct LlmConfig {
    pub circuit_breaker: CircuitBreakerConfig,
    pub phase_routing: PhaseRoutingConfig,
}

impl Default for LlmConfig {
    fn default() -> (r: Self)
        ensures
            r.circuit_breaker.enabled,
            r.circuit_breaker.failure_threshold == 5,
            r.circuit_breaker.cooldown_ms == 60_000,
            r.circuit_breaker.probe_interval_ms == 30_000,
            r.circuit_breaker.probe_timeout_ms == 5_000,
            r.phase_routing.perception@ == "model_for_analysis"@,
            r.phase_routing.action@ == "model_for_generation"@,
    {
        LlmConfig {
            circuit_breaker: CircuitBreakerConfig::default(),
            phase_routing: PhaseRoutingConfig::default(),
        }
    }
}

#[derive(Debug, Clone)]
pub struct ForgeConfig {
    pub max_retries: u8,
    pub compile_timeout_secs: u64,
    pub clippy_timeout_secs: u64,
    pub audit_timeout_secs: u64,
    pub test_timeout_secs: u64,
}

impl Default for ForgeConfig {
    fn default() -> (r: Self)
        ensures
            r.max_retries == 3,
            r.compile_timeout_secs == 120,
            r.clippy_timeout_secs == 60,
            r.audit_timeout_secs == 30,
            r.test_timeout_secs == 120,
    {
        ForgeConfig {
            max_retries: 3,
            compile_timeout_secs: 120,
            clippy_timeout_secs: 60,
            audit_timeout_secs: 30,
            test_timeout_secs: 120,
        }
    }
}

#[derive(Debug, Clone)]
pub struct LimitsConfig {
    pub max_actions_per_cycle: usize,
    pub max_concurrent_actions: usize,
    pub max_llm_calls_per_day: usize,
}

impl Default for LimitsConfig {
    fn default() -> (r: Self)
        ensures
            r.max_actions_per_cycle == 10,
            r.max_concurrent_actions == 3,
            r.max_llm_calls_per_day == 500,
    {
        LimitsConfig { max_actions_per_cycle: 10, max_concurrent_actions: 3, max_llm_calls_per_day: 500 }
    }
}

/// Gap analysis settings; the confidence threshold is in thousandths.
#[derive(Debug, Clone)]
pub struct AnalysisConfig {
    pub confidence_threshold_thousandths: u32,
    pub max_gap_reports_per_cycle: usize,
    pub bm25_top_k: usize,
    pub cosine_rerank_k: usize,
}

impl Default for AnalysisConfig {
    fn default() -> (r: Self)
        ensures
            r.confidence_threshold_thousandths == 600,
            r.max_gap_reports_per_cycle == 20,
            r.bm25_top_k == 20,
            r.cosine_rerank_k == 5,
    {
        AnalysisConfig {
            confidence_threshold_thousandths: 600,
            max_gap_reports_per_cycle: 20,
            bm25_top_k: 20,
            cosine_rerank_k: 5,
        }
    }
}

/// Self-model settings; confidences and thresholds are in thousandths.
#[derive(Debug, Clone)]
pub struct MetacognitionConfig {
    pub min_decision_confidence_thousandths: u32,
    pub reflection_window: usize,
    pub recovery_threshold_thousandths: u32,
    pub cautious_threshold_thousandths: u32,
}

impl Default for MetacognitionConfig {
    fn default() -> (r: Self)
        ensures
            r.min_decision_confidence_thousandths == 700,
            r.reflection_window == 10,
            r.recovery_threshold_thousandths == 300,
            r.cautious_threshold_thousandths == 600,
    {
        MetacognitionConfig {
            min_decision_confidence_thousandths: 700,
            reflection_window: 10,
            recovery_threshold_thousandths: 300,
            cautious_threshold_thousandths: 600,
        }
    }
}

/// Evaluation settings; rates and thresholds are in thousandths.
#[derive(Debug, Clone)]
pub struct EvaluationConfig {
    pub monitoring_window_secs: u64,
    pub redundancy_threshold_thousandths: u32,
    pub auto_deprecate_failure_rate_thousandths: u32,
    pub deprecation_grace_days: u32,
}

impl Default for EvaluationConfig {
    fn default() -> (r: Self)
        ensures
            r.monitoring_window_secs == 300,
            r.redundancy_threshold_thousandths == 950,
            r.auto_deprecate_failure_rate_thousandths == 500,
            r.deprecation_grace_days == 30,
    {
        EvaluationConfig {
            monitoring_window_secs: 300,
            redundancy_threshold_thousandths: 950,
            auto_deprecate_failure_rate_thousandths: 500,
            deprecation_grace_days: 30,
        }
    }
}

/// Meta-adaptation settings; the largest adjustment step is in thousandths.
#[derive(Debug, Clone)]
pub struct MetaConfig {
    pub adaptation_frequency_cycles: usize,
    pub adjustment_max_step_thousandths: u32,
    pub lesson_repeat_threshold: usize,
}

impl Default for MetaConfig {
    fn default() -> (r: Self)
        ensures
            r.adaptation_frequency_cycles == 5,
            r.adjustment_max_step_thousandths == 100,
            r.lesson_repeat_threshold == 3,
    {
        MetaConfig { adaptation_frequency_cycles: 5, adjustment_max_step_thousandths: 100, lesson_repeat_threshold: 3 }
    }
}

/// The minimum healthy level of each homeostatic indicator, in thousandths.
#[derive(Debug, Clone)]
pub struct HealthConfig {
    pub min_coverage: u32,
    pub min_stability: u32,
    pub min_efficiency: u32,
    pub min_utilization: u32,
    pub min_freshness: u32,
}

impl Default for HealthConfig {
    fn default() -> (r: Self)
        ensures
            r.min_coverage == 500,
            r.min_stability == 700,
            r.min_efficiency == 400,
            r.min_utilization == 300,
            r.min_freshness == 500,
    {
        HealthConfig { min_coverage: 500, min_stability: 700, min_efficiency: 400, min_utilization: 300, min_freshness: 500 }
    }
}

/// An optional condition on a policy rule: the action passes only at or
/// above this confidence, in thousandths (800 stands for 0.8).
#[derive(Debug, Clone)]
pub struct PolicyConditionConfig {
    pub min_confidence_thousandths: Option<u32>,
}

/// One policy rule as configured: a glob pattern over action labels, the
/// action name (`allow`, `ask` or `deny`) and an optional condition.
#[derive(Debug, Clone)]
pub struct PolicyRuleConfig {
    pub pattern: String,
    pub action: String,
    pub condition: Option<PolicyConditionConfig>,
}

/// A configured rule, as plain values.
pub struct PolicyRuleConfigView {
    pub pattern: Seq<char>,
    pub action: Seq<char>,
    pub min_confidence: Option<u32>,
}

impl View for PolicyRuleConfig {
    type V = PolicyRuleConfigView;

    open spec fn view(&self) -> PolicyRuleConfigView {
        PolicyRuleConfigView {
            pattern: self.pattern@,
            action: self.action@,
            min_confidence: match self.condition {
                Some(c) => c.min_confidence_thousandths,
                None => None,
            },
        }
    }
}

#[derive(Debug, Clone)]
pub struct PoliciesConfig {
    pub rules: Vec<PolicyRuleConfig>,
}

fn rule_config(pattern: &str, action: &str, min_confidence: Option<u32>) -> (r: PolicyRuleConfig)
    ensures
        r@.pattern == pattern@,
        r@.action == action@,
        r@.min_confidence == min_confidence,
{
    PolicyRuleConfig {
        pattern: owned(pattern),
        action: owned(action),
        condition: match min_confidence {
            Some(m) => Some(PolicyConditionConfig { min_confidence_thousandths: Some(m) }),
            None => None,
        },
    }
}

impl Default for PoliciesConfig {
    /// Simple creations are allowed, complex ones from confidence 0.8 on;
    /// deprecations and merges ask; removals are denied.
    fn default() -> (r: Self)
        ensures
            r.rules@.len() == 5,
            r.rules@[0]@ == (PolicyRuleConfigView {
                pattern: "module.create.simple"@,
                action: "allow"@,
                min_confidence: None,
            }),
            r.rules@[1]@ == (PolicyRuleConfigView {
                pattern: "module.create.complex"@,
                action: "allow"@,
                min_confidence: Some(800u32),
            }),
            r.rules@[2]@ == (PolicyRuleConfigView {
                pattern: "module.deprecate.*"@,
                action: "ask"@,
                min_confidence: None,
            }),
            r.rules@[3]@ == (PolicyRuleConfigView {
                pattern: "module.remove.*"@,
                action: "deny"@,
                min_confidence: None,
            }),
            r.rules@[4]@ == (PolicyRuleConfigView {
                pattern: "module.merge.*"@,
                action: "ask"@,
                min_confidence: None,
            }),
    {
        let mut rules: Vec<PolicyRuleConfig> = Vec::new();
        rules.push(rule_config("module.create.simple", "allow", None));
        rules.push(rule_config("module.create.complex", "allow", Some(800)));
        rules.push(rule_config("module.deprecate.*", "ask", None));
        rules.push(rule_config("module.remove.*", "deny", None));
        rules.push(rule_config("module.merge.*", "ask", None));
        PoliciesConfig { rules }
    }
}

/// Deliberation settings: the risk threshold (thousandths) and the policy
/// rules actions are checked against.
#[derive(Debug, Clone)]
pub struct DeliberationConfig {
    pub risk_threshold_thousandths: u32,
    pub policies: PoliciesConfig,
}

impl Default for DeliberationConfig {
    fn default() -> (r: Self)
        ensures
            r.risk_threshold_thousandths == 700,
            r.policies.rules@.len() == 5,
    {
        DeliberationConfig { risk_threshold_thousandths: 700, policies: PoliciesConfig::default() }
    }
}

/// The lowest failure threshold the cognitive layer's own breaker uses, so
/// that it trips only after the provider's inner breaker (default 5).
pub const MIN_COGNITIVE_FAILURE_THRESHOLD: u32 = 8;

/// The failure threshold the cognitive layer's breaker runs with: the
/// configured one, raised to at least eight.
pub fn cognitive_failure_threshold(configured: u32) -> (r: u32)
    ensures
        r == if configured < 8 { 8 } else { configured },
{
    if configured < MIN_COGNITIVE_FAILURE_THRESHOLD {
        MIN_COGNITIVE_FAILURE_THRESHOLD
    } else {
        configured
    }
}

} // verus!
