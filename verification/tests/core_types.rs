use project_e::types::{
    parse_phase, AnomalyPattern, CognitivePhase, CynefinDomain, GateName, ModuleState, Priority,
    WardleyStage,
};

#[test]
fn module_state_valid_transitions() {
    assert!(ModuleState::Draft.can_transition_to(ModuleState::Compiling));
    assert!(ModuleState::Active.can_transition_to(ModuleState::Deprecated));
    assert!(!ModuleState::Draft.can_transition_to(ModuleState::Active));
    assert!(!ModuleState::Removed.can_transition_to(ModuleState::Active));
}

#[test]
fn gate_name_ordering() {
    assert!(GateName::UnsafeCheck.ordinal() < GateName::Compile.ordinal());
    assert!(GateName::Compile.ordinal() < GateName::Test.ordinal());
}

#[test]
fn priority_ordering() {
    assert!(Priority::Critical.ordinal() > Priority::Low.ordinal());
}

#[test]
fn parse_phase_all_variants() {
    for (s, expected) in [
        ("perception", CognitivePhase::Perception),
        ("interpretation", CognitivePhase::Interpretation),
        ("deliberation", CognitivePhase::Deliberation),
        ("action", CognitivePhase::Action),
        ("evaluation", CognitivePhase::Evaluation),
        ("meta_adaptation", CognitivePhase::MetaAdaptation),
    ] {
        assert_eq!(parse_phase(s), Some(expected), "phase '{s}' should parse");
    }
    assert_eq!(parse_phase("unknown"), None);
}

#[test]
fn phase_names_parse_back() {
    for p in [
        CognitivePhase::Perception,
        CognitivePhase::Interpretation,
        CognitivePhase::Deliberation,
        CognitivePhase::Action,
        CognitivePhase::Evaluation,
        CognitivePhase::MetaAdaptation,
    ] {
        assert_eq!(parse_phase(p.name()), Some(p));
    }
    assert_eq!(parse_phase("Action"), None);
    assert_eq!(parse_phase(""), None);
}

#[test]
fn lifecycle_edges() {
    let (draft, compiling, testing, active, deprecated, removed) = (
        ModuleState::Draft,
        ModuleState::Compiling,
        ModuleState::Testing,
        ModuleState::Active,
        ModuleState::Deprecated,
        ModuleState::Removed,
    );
    let all = [draft, compiling, testing, active, deprecated, removed];
    let allowed = [
        (draft, compiling),
        (compiling, testing),
        (compiling, draft),
        (testing, active),
        (testing, draft),
        (active, deprecated),
        (deprecated, removed),
        (deprecated, active),
    ];
    for from in all {
        for to in all {
            assert_eq!(from.can_transition_to(to), allowed.contains(&(from, to)));
        }
    }
}

#[test]
fn labels_and_retry_budgets() {
    assert_eq!(CynefinDomain::Simple.label(), "simple");
    assert_eq!(CynefinDomain::Complicated.label(), "complicated");
    assert_eq!(CynefinDomain::Complex.label(), "complex");
    assert_eq!(CynefinDomain::Chaotic.label(), "chaotic");
    assert_eq!(WardleyStage::Genesis.max_retries(), 5);
    assert_eq!(WardleyStage::Custom.max_retries(), 4);
    assert_eq!(WardleyStage::Product.max_retries(), 2);
    assert_eq!(WardleyStage::Commodity.max_retries(), 1);
}

#[test]
fn gate_ordinals_are_the_pipeline_order() {
    let gates = [
        GateName::UnsafeCheck,
        GateName::ForbiddenPatterns,
        GateName::Compile,
        GateName::Clippy,
        GateName::Audit,
        GateName::Test,
    ];
    for (i, g) in gates.iter().enumerate() {
        assert_eq!(g.ordinal() as usize, i);
    }
    assert_eq!(Priority::Low.ordinal(), 0);
    assert_eq!(Priority::Critical.ordinal(), 3);
}

#[test]
fn anomaly_patterns_have_distinct_positions() {
    let all = [
        AnomalyPattern::RepeatedCompilationErrors,
        AnomalyPattern::EfficiencyCollapse,
        AnomalyPattern::RecoveryLoop,
        AnomalyPattern::ErrorStorm,
        AnomalyPattern::StaleData,
        AnomalyPattern::RedundantModules,
        AnomalyPattern::ContextOverflow,
    ];
    for (i, p) in all.iter().enumerate() {
        assert_eq!(p.index(), i);
    }
}
