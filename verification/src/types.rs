//! Shared enumerations of the cognitive layer and the small rules attached
//! to them (lifecycle transitions, orderings, labels, retry budgets).

use vstd::prelude::*;

use crate::text::{chars_eq, chars_of};

verus! {

/// Six-phase cognitive cycle.
#[derive(Debug, Clone, Copy, PartialEq, Eq, Structural, Hash)]
pub enum CognitivePhase {
    Perception,
    Interpretation,
    Deliberation,
    Action,
    Evaluation,
    MetaAdaptation,
}

/// The snake-case name of a phase, as it is displayed and as it is parsed.
pub open spec fn phase_name_spec(p: CognitivePhase) -> Seq<char> {
    match p {
        CognitivePhase::Perception => "perception"@,
        CognitivePhase::Interpretation => "interpretation"@,
        CognitivePhase::Deliberation => "deliberation"@,
        CognitivePhase::Action => "action"@,
        CognitivePhase::Evaluation => "evaluation"@,
        CognitivePhase::MetaAdaptation => "meta_adaptation"@,
    }
}

impl CognitivePhase {
    /// The snake-case display name of the phase.
    pub fn name(&self) -> (r: &'static str)
        ensures
            r@ == phase_name_spec(*self),
    {
        match self {
            CognitivePhase::Perception => "perception",
            CognitivePhase::Interpretation => "interpretation",
            CognitivePhase::Deliberation => "deliberation",
            CognitivePhase::Action => "action",
            CognitivePhase::Evaluation => "evaluation",
            CognitivePhase::MetaAdaptation => "meta_adaptation",
        }
    }
}

/// The phase whose snake-case name `s` is, if any.
pub open spec fn phase_named(s: Seq<char>) -> Option<CognitivePhase> {
    if s == "perception"@ {
        Some(CognitivePhase::Perception)
    } else if s == "interpretation"@ {
        Some(CognitivePhase::Interpretation)
    } else if s == "deliberation"@ {
        Some(CognitivePhase::Deliberation)
    } else if s == "action"@ {
        Some(CognitivePhase::Action)
    } else if s == "evaluation"@ {
        Some(CognitivePhase::Evaluation)
    } else if s == "meta_adaptation"@ {
        Some(CognitivePhase::MetaAdaptation)
    } else {
        None
    }
}

/// Parse a phase from its snake-case name.
pub fn parse_phase(s: &str) -> (r: Option<CognitivePhase>)
    ensures
        r == phase_named(s@),
{
    let cs = chars_of(s);
    if chars_eq(&cs, &chars_of("perception")) {
        Some(CognitivePhase::Perception)
    } else if chars_eq(&cs, &chars_of("interpretation")) {
        Some(CognitivePhase::Interpretation)
    } else if chars_eq(&cs, &chars_of("deliberation")) {
        Some(CognitivePhase::Deliberation)
    } else if chars_eq(&cs, &chars_of("action")) {
        Some(CognitivePhase::Action)
    } else if chars_eq(&cs, &chars_of("evaluation")) {
        Some(CognitivePhase::Evaluation)
    } else if chars_eq(&cs, &chars_of("meta_adaptation")) {
        Some(CognitivePhase::MetaAdaptation)
    } else {
        None
    }
}

/// A phase's name parses back to the phase, and no other text parses to it.
pub proof fn lemma_phase_name_round_trip(p: CognitivePhase, s: Seq<char>)
    ensures
        phase_named(phase_name_spec(p)) == Some(p),
        phase_named(s) == Some(p) ==> s == phase_name_spec(p),
{
    reveal_strlit("perception");
    reveal_strlit("interpretation");
    reveal_strlit("deliberation");
    reveal_strlit("action");
    reveal_strlit("evaluation");
    reveal_strlit("meta_adaptation");
    assert("perception"@.len() == 10 && "interpretation"@.len() == 14 && "deliberation"@.len() == 12
        && "action"@.len() == 6 && "evaluation"@.len() == 10 && "meta_adaptation"@.len() == 15);
    assert("perception"@[0] != "evaluation"@[0]);
}

/// Module lifecycle state machine:
/// Draft → Compiling → Testing → Active → Deprecated → Removed
#[derive(Debug, Clone, Copy, PartialEq, Eq, Structural, Hash)]
pub enum ModuleState {
    Draft,
    Compiling,
    Testing,
    Active,
    Deprecated,
    Removed,
}

/// The valid lifecycle transitions: the forward path, the two ways back to
/// Draft after a failed build or failed tests, and re-activation of a
/// deprecated module.
pub open spec fn valid_transition(from: ModuleState, to: ModuleState) -> bool {
    match (from, to) {
        (ModuleState::Draft, ModuleState::Compiling) => true,
        (ModuleState::Compiling, ModuleState::Testing) => true,
        (ModuleState::Compiling, ModuleState::Draft) => true,
        (ModuleState::Testing, ModuleState::Active) => true,
        (ModuleState::Testing, ModuleState::Draft) => true,
        (ModuleState::Active, ModuleState::Deprecated) => true,
        (ModuleState::Deprecated, ModuleState::Removed) => true,
        (ModuleState::Deprecated, ModuleState::Active) => true,
        _ => false,
    }
}

impl ModuleState {
    /// Returns true if transitioning from `self` to `target` is valid.
    pub fn can_transition_to(&self, target: ModuleState) -> (r: bool)
        ensures
            r == valid_transition(*self, target),
    {
        match (self, target) {
            (ModuleState::Draft, ModuleState::Compiling) => true,
            (ModuleState::Compiling, ModuleState::Testing) => true,
            (ModuleState::Compiling, ModuleState::Draft) => true,
            (ModuleState::Testing, ModuleState::Active) => true,
            (ModuleState::Testing, ModuleState::Draft) => true,
            (ModuleState::Active, ModuleState::Deprecated) => true,
            (ModuleState::Deprecated, ModuleState::Removed) => true,
            (ModuleState::Deprecated, ModuleState::Active) => true,
            _ => false,
        }
    }
}

/// No state can move to itself, and Removed is final.
pub proof fn lemma_lifecycle_shape(from: ModuleState, to: ModuleState)
    ensures
        !valid_transition(from, from),
        !valid_transition(ModuleState::Removed, to),
        valid_transition(from, ModuleState::Removed) <==> from == ModuleState::Deprecated,
{
}

/// Priority levels for gap reports and actions.
#[derive(Debug, Clone, Copy, PartialEq, Eq, Structural, Hash)]
pub enum Priority {
    Critical,
    High,
    Medium,
    Low,
}

pub open spec fn priority_ordinal_spec(p: Priority) -> u8 {
    match p {
        Priority::Critical => 3,
        Priority::High => 2,
        Priority::Medium => 1,
        Priority::Low => 0,
    }
}

impl Priority {
    pub fn ordinal(&self) -> (r: u8)
        ensures
            r == priority_ordinal_spec(*self),
    {
        match self {
            Priority::Critical => 3,
            Priority::High => 2,
            Priority::Medium => 1,
            Priority::Low => 0,
        }
    }
}

/// Distinct priorities have distinct ordinals, and the ordinals follow the
/// order Critical > High > Medium > Low.
pub proof fn lemma_priority_order(a: Priority, b: Priority)
    ensures
        a != b ==> priority_ordinal_spec(a) != priority_ordinal_spec(b),
        priority_ordinal_spec(Priority::Critical) > priority_ordinal_spec(Priority::High),
        priority_ordinal_spec(Priority::High) > priority_ordinal_spec(Priority::Medium),
        priority_ordinal_spec(Priority::Medium) > priority_ordinal_spec(Priority::Low),
{
}

/// Cynefin domain determines forge strategy.
#[derive(Debug, Clone, Copy, PartialEq, Eq, Structural, Hash)]
pub enum CynefinDomain {
    /// Apply best-practice template, high confidence, low risk.
    Simple,
    /// Generate 2–3 variants, test, select best.
    Complicated,
    /// Generate experimental module with "experimental" flag, monitor closely.
    Complex,
    /// Rapid prototype, temporary module, iterate fast.
    Chaotic,
}

pub open spec fn cynefin_label_spec(d: CynefinDomain) -> Seq<char> {
    match d {
        CynefinDomain::Simple => "simple"@,
        CynefinDomain::Complicated => "complicated"@,
        CynefinDomain::Complex => "complex"@,
        CynefinDomain::Chaotic => "chaotic"@,
    }
}

impl CynefinDomain {
    /// Human-readable label for use in policy pattern matching.
    pub fn label(&self) -> (r: &'static str)
        ensures
            r@ == cynefin_label_spec(*self),
    {
        match self {
            CynefinDomain::Simple => "simple",
            CynefinDomain::Complicated => "complicated",
            CynefinDomain::Complex => "complex",
            CynefinDomain::Chaotic => "chaotic",
        }
    }

    /// The variant's name, as derived `Debug` formatting writes it.
    pub fn debug_name(&self) -> (r: &'static str)
        ensures
            r@ == cynefin_debug_spec(*self),
    {
        match self {
            CynefinDomain::Simple => "Simple",
            CynefinDomain::Complicated => "Complicated",
            CynefinDomain::Complex => "Complex",
            CynefinDomain::Chaotic => "Chaotic",
        }
    }
}

pub open spec fn cynefin_debug_spec(d: CynefinDomain) -> Seq<char> {
    match d {
        CynefinDomain::Simple => "Simple"@,
        CynefinDomain::Complicated => "Complicated"@,
        CynefinDomain::Complex => "Complex"@,
        CynefinDomain::Chaotic => "Chaotic"@,
    }
}

/// Wardley evolution stage determines fault tolerance.
#[derive(Debug, Clone, Copy, PartialEq, Eq, Structural, Hash)]
pub enum WardleyStage {
    /// High fault tolerance; many retry attempts allowed.
    Genesis,
    /// Medium tolerance; evaluate generalizability.
    Custom,
    /// Low tolerance; incremental changes only.
    Product,
    /// Candidate for simplification or merger.
    Commodity,
}

pub open spec fn wardley_max_retries_spec(s: WardleyStage) -> u8 {
    match s {
        WardleyStage::Genesis => 5,
        WardleyStage::Custom => 4,
        WardleyStage::Product => 2,
        WardleyStage::Commodity => 1,
    }
}

impl WardleyStage {
    /// Maximum retry attempts for this evolution stage.
    pub fn max_retries(&self) -> (r: u8)
        ensures
            r == wardley_max_retries_spec(*self),
    {
        match self {
            WardleyStage::Genesis => 5,
            WardleyStage::Custom => 4,
            WardleyStage::Product => 2,
            WardleyStage::Commodity => 1,
        }
    }
}

/// The more evolved the stage, the fewer retries; every stage allows one.
pub proof fn lemma_retries_decrease_with_evolution()
    ensures
        wardley_max_retries_spec(WardleyStage::Genesis) > wardley_max_retries_spec(WardleyStage::Custom),
        wardley_max_retries_spec(WardleyStage::Custom) > wardley_max_retries_spec(WardleyStage::Product),
        wardley_max_retries_spec(WardleyStage::Product) > wardley_max_retries_spec(WardleyStage::Commodity),
        wardley_max_retries_spec(WardleyStage::Commodity) >= 1,
{
}

/// Gap classification in analysis reports.
#[derive(Debug, Clone, Copy, PartialEq, Eq, Structural, Hash)]
pub enum GapClassification {
    Gap,
    Conflict,
    Confirmation,
}

/// Lifecycle actions suggested by gap analysis.
#[derive(Debug, Clone, Copy, PartialEq, Eq, Structural, Hash)]
pub enum LifecycleAction {
    Create,
    Update,
    Merge,
    Split,
    Deprecate,
}

/// Health status reported by modules.
#[derive(Debug, Clone, PartialEq)]
pub enum HealthStatus {
    Healthy,
    Degraded { reason: String },
    Unhealthy { reason: String },
}

/// Operating mode for the deliberation engine.
#[derive(Debug, Clone, Copy, PartialEq, Eq, Structural, Hash)]
pub enum OperatingMode {
    /// Efficiency very low, recent failures high — minimal action.
    Recovery,
    /// Mixed signals — selective action, defer uncertain gaps.
    Cautious,
    /// Good efficiency, stable system — normal operation.
    Nominal,
}

/// Named forge validation gates in order.
#[derive(Debug, Clone, Copy, PartialEq, Eq, Structural, Hash)]
pub enum GateName {
    UnsafeCheck,
    ForbiddenPatterns,
    Compile,
    Clippy,
    Audit,
    Test,
}

pub open spec fn gate_ordinal_spec(g: GateName) -> u8 {
    match g {
        GateName::UnsafeCheck => 0,
        GateName::ForbiddenPatterns => 1,
        GateName::Compile => 2,
        GateName::Clippy => 3,
        GateName::Audit => 4,
        GateName::Test => 5,
    }
}

pub open spec fn gate_debug_spec(g: GateName) -> Seq<char> {
    match g {
        GateName::UnsafeCheck => "UnsafeCheck"@,
        GateName::ForbiddenPatterns => "ForbiddenPatterns"@,
        GateName::Compile => "Compile"@,
        GateName::Clippy => "Clippy"@,
        GateName::Audit => "Audit"@,
        GateName::Test => "Test"@,
    }
}

impl GateName {
    /// Ordinal position in the pipeline's gate order (0-indexed).
    pub fn ordinal(&self) -> (r: u8)
        ensures
            r == gate_ordinal_spec(*self),
    {
        match self {
            GateName::UnsafeCheck => 0,
            GateName::ForbiddenPatterns => 1,
            GateName::Compile => 2,
            GateName::Clippy => 3,
            GateName::Audit => 4,
            GateName::Test => 5,
        }
    }

    /// The variant's name, as derived `Debug` formatting writes it.
    pub fn debug_name(&self) -> (r: &'static str)
        ensures
            r@ == gate_debug_spec(*self),
    {
        match self {
            GateName::UnsafeCheck => "UnsafeCheck",
            GateName::ForbiddenPatterns => "ForbiddenPatterns",
            GateName::Compile => "Compile",
            GateName::Clippy => "Clippy",
            GateName::Audit => "Audit",
            GateName::Test => "Test",
        }
    }
}

/// Gate ordinals identify gates: they are distinct, below six, and the last
/// gate (the tests) has the largest ordinal.
pub proof fn lemma_gate_ordinal_injective(a: GateName, b: GateName)
    ensures
        gate_ordinal_spec(a) == gate_ordinal_spec(b) ==> a == b,
        gate_ordinal_spec(a) < 6,
        gate_ordinal_spec(a) <= gate_ordinal_spec(GateName::Test),
{
}

/// Supervisor anomaly patterns.
#[derive(Debug, Clone, Copy, PartialEq, Eq, Structural, Hash)]
pub enum AnomalyPattern {
    RepeatedCompilationErrors,
    EfficiencyCollapse,
    RecoveryLoop,
    ErrorStorm,
    StaleData,
    RedundantModules,
    ContextOverflow,
}

/// Position of a pattern in declaration order; the supervisor keeps one
/// counter per position.
pub open spec fn anomaly_index(p: AnomalyPattern) -> nat {
    match p {
        AnomalyPattern::RepeatedCompilationErrors => 0,
        AnomalyPattern::EfficiencyCollapse => 1,
        AnomalyPattern::RecoveryLoop => 2,
        AnomalyPattern::ErrorStorm => 3,
        AnomalyPattern::StaleData => 4,
        AnomalyPattern::RedundantModules => 5,
        AnomalyPattern::ContextOverflow => 6,
    }
}

/// Number of anomaly patterns.
pub const ANOMALY_PATTERN_COUNT: usize = 7;

impl AnomalyPattern {
    /// Position of the pattern in declaration order.
    pub fn index(&self) -> (r: usize)
        ensures
            r == anomaly_index(*self),
            r < ANOMALY_PATTERN_COUNT,
    {
        match self {
            AnomalyPattern::RepeatedCompilationErrors => 0,
            AnomalyPattern::EfficiencyCollapse => 1,
            AnomalyPattern::RecoveryLoop => 2,
            AnomalyPattern::ErrorStorm => 3,
            AnomalyPattern::StaleData => 4,
            AnomalyPattern::RedundantModules => 5,
            AnomalyPattern::ContextOverflow => 6,
        }
    }
}

/// Distinct patterns have distinct positions.
pub proof fn lemma_anomaly_index_injective(a: AnomalyPattern, b: AnomalyPattern)
    ensures
        anomaly_index(a) == anomaly_index(b) ==> a == b,
        anomaly_index(a) < ANOMALY_PATTERN_COUNT,
{
}

/// Supervisor intervention types.
///
/// The confidence-threshold step is held in thousandths, so that an
/// intervention is a plain value: a delta of 50 stands for 0.05.
#[derive(Debug, Clone, PartialEq)]
pub enum InterventionType {
    PromptInjection { guidance: String },
    ModelEscalation { to_model: String },
    TightenConfidenceThreshold { delta_thousandths: u32 },
    PauseCycle { duration_secs: u64 },
    SkipPhase { phase: CognitivePhase },
    ForceRecoveryMode,
    ResetCounters,
}

/// Five homeostatic health indicators.
#[derive(Debug, Clone, Copy, PartialEq, Eq, Structural, Hash)]
pub enum HealthIndicator {
    Coverage,
    Stability,
    Efficiency,
    Utilization,
    Freshness,
}

} // verus!
