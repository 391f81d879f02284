use std::collections::HashMap;

use project_e::config::{HealthConfig, MetaConfig};
use project_e::metacognition::{
    CycleEvaluation, HomeostaticIndicators, MetaAdaptationEngine, SelfModelBuilder,
};

use project_e::analysis::GapReport;
use project_e::config::{LimitsConfig, PoliciesConfig, PolicyConditionConfig, PolicyRuleConfig};
use project_e::deliberation::{ActionPlan, DeliberationEngine, ForgeStrategy, PlannedAction};
use project_e::policy::{rule_from_config, PolicyAction, PolicyEngine, PolicyRule};
use project_e::types::{
    CynefinDomain, GapClassification, LifecycleAction, OperatingMode, Priority, WardleyStage,
};

fn test_gap(cynefin: CynefinDomain) -> GapReport {
    GapReport::new(
        7,
        GapClassification::Gap,
        900,
        cynefin,
        WardleyStage::Custom,
        Priority::High,
        LifecycleAction::Create,
        "Test gap".to_string(),
    )
}

#[test]
fn recovery_mode_defers_everything() {
    let engine = DeliberationEngine::new(LimitsConfig::default());
    let gaps = vec![test_gap(CynefinDomain::Simple)];
    let plan = engine.deliberate(1, gaps, OperatingMode::Recovery);
    assert!(plan.actions.is_empty());
    assert_eq!(plan.deferred.len(), 1);
    assert_eq!(plan.deferred[0].reason, "System in Recovery mode — deferring all actions");
}

#[test]
fn cautious_mode_limits_to_simple() {
    let engine = DeliberationEngine::new(LimitsConfig::default());
    let gaps = vec![
        test_gap(CynefinDomain::Simple),
        test_gap(CynefinDomain::Complex),
        test_gap(CynefinDomain::Simple),
    ];
    let plan = engine.deliberate(1, gaps, OperatingMode::Cautious);
    assert_eq!(plan.actions.len(), 2);
    assert!(!plan.deferred.is_empty());
    assert_eq!(plan.deferred[0].reason, "Cautious mode — deferring Complex domain gap");
}

#[test]
fn cautious_mode_caps_at_two() {
    let engine = DeliberationEngine::new(LimitsConfig::default());
    let gaps = vec![
        test_gap(CynefinDomain::Simple),
        test_gap(CynefinDomain::Simple),
        test_gap(CynefinDomain::Simple),
    ];
    let plan = engine.deliberate(1, gaps, OperatingMode::Cautious);
    assert_eq!(plan.actions.len(), 2);
    assert_eq!(plan.deferred.len(), 1);
    assert_eq!(plan.deferred[0].reason, "Cautious mode action limit reached");
}

#[test]
fn nominal_mode_plans_all() {
    let engine = DeliberationEngine::new(LimitsConfig { max_actions_per_cycle: 10, ..LimitsConfig::default() });
    let gaps = vec![
        test_gap(CynefinDomain::Simple),
        test_gap(CynefinDomain::Complicated),
        test_gap(CynefinDomain::Complex),
    ];
    let plan = engine.deliberate(1, gaps, OperatingMode::Nominal);
    assert_eq!(plan.actions.len(), 3);
    assert!(plan.deferred.is_empty());
    assert_eq!(plan.max_concurrent, 3);
    assert_eq!(plan.cycle_id, 1);
}

#[test]
fn nominal_mode_respects_the_limit() {
    let engine = DeliberationEngine::new(LimitsConfig { max_actions_per_cycle: 1, ..LimitsConfig::default() });
    let gaps = vec![test_gap(CynefinDomain::Simple), test_gap(CynefinDomain::Chaotic)];
    let plan = engine.deliberate(1, gaps, OperatingMode::Nominal);
    assert_eq!(plan.actions.len(), 1);
    assert_eq!(plan.deferred[0].reason, "Max actions per cycle reached");
}

fn gap_with_priority(priority: Priority) -> GapReport {
    GapReport::new(
        7,
        GapClassification::Gap,
        900,
        CynefinDomain::Simple,
        WardleyStage::Custom,
        priority,
        LifecycleAction::Create,
        "Prioritised gap".to_string(),
    )
}

#[test]
fn nominal_actions_are_ordered_by_priority() {
    let engine = DeliberationEngine::new(LimitsConfig { max_actions_per_cycle: 10, ..LimitsConfig::default() });
    let gaps = vec![
        gap_with_priority(Priority::Low),
        gap_with_priority(Priority::High),
        gap_with_priority(Priority::Medium),
        gap_with_priority(Priority::High),
        gap_with_priority(Priority::Critical),
    ];
    let ids: Vec<u128> = gaps.iter().map(|g| g.id).collect();
    let plan = engine.deliberate(1, gaps, OperatingMode::Nominal);
    let order: Vec<u128> = plan.actions.iter().map(|a| a.gap_id).collect();
    assert_eq!(order, vec![ids[4], ids[1], ids[3], ids[2], ids[0]]);
}

#[test]
fn limited_nominal_plan_orders_the_chosen_gaps() {
    let engine = DeliberationEngine::new(LimitsConfig { max_actions_per_cycle: 2, ..LimitsConfig::default() });
    let gaps = vec![
        gap_with_priority(Priority::Low),
        gap_with_priority(Priority::High),
        gap_with_priority(Priority::Critical),
    ];
    let ids: Vec<u128> = gaps.iter().map(|g| g.id).collect();
    let plan = engine.deliberate(1, gaps, OperatingMode::Nominal);
    let order: Vec<u128> = plan.actions.iter().map(|a| a.gap_id).collect();
    assert_eq!(order, vec![ids[1], ids[0]]);
    assert_eq!(plan.deferred.len(), 1);
    assert_eq!(plan.deferred[0].gap_id, ids[2]);
}

#[test]
fn cynefin_maps_to_strategy() {
    let engine = DeliberationEngine::new(LimitsConfig::default());
    let plan = engine.deliberate(1, vec![test_gap(CynefinDomain::Complicated)], OperatingMode::Nominal);
    assert!(matches!(plan.actions[0].strategy, ForgeStrategy::CreateWithVariants { variant_count: 2 }));
}

#[test]
fn planned_action_fields() {
    let engine = DeliberationEngine::new(LimitsConfig::default());
    let gap = test_gap(CynefinDomain::Chaotic);
    let action = engine.plan_action(&gap);
    assert_eq!(action.gap_id, gap.id);
    assert_eq!(action.strategy, ForgeStrategy::CreateRapidPrototype);
    assert_eq!(action.max_retries, 4);
    assert!(action.experimental);
    assert_eq!(action.action_label, "module.create.chaotic");
}

fn default_engine() -> PolicyEngine {
    PolicyEngine::from_config(&PoliciesConfig::default().rules)
}

fn make_action(gap_id: u128, label: &str) -> PlannedAction {
    PlannedAction {
        gap_id,
        strategy: ForgeStrategy::CreateFromTemplate,
        max_retries: 3,
        experimental: false,
        action_label: label.to_string(),
    }
}

#[test]
fn allow_simple_create() {
    let engine = default_engine();
    let action = make_action(1, "module.create.simple");
    assert_eq!(engine.evaluate(&action, 900), PolicyAction::Allow);
}

#[test]
fn deny_module_remove() {
    let engine = default_engine();
    let action = make_action(1, "module.remove.old_module");
    assert_eq!(engine.evaluate(&action, 1000), PolicyAction::Deny);
}

#[test]
fn ask_module_deprecate() {
    let engine = default_engine();
    let action = make_action(1, "module.deprecate.old_module");
    assert_eq!(engine.evaluate(&action, 1000), PolicyAction::Ask);
}

#[test]
fn complex_create_requires_confidence() {
    let engine = default_engine();
    let action = make_action(1, "module.create.complex");
    assert_eq!(engine.evaluate(&action, 900), PolicyAction::Allow);
    assert_eq!(engine.evaluate(&action, 500), PolicyAction::Deny);
    // The minimum itself passes.
    assert_eq!(engine.evaluate(&action, 800), PolicyAction::Allow);
}

#[test]
fn unknown_action_defaults_to_allow() {
    let engine = default_engine();
    let action = make_action(1, "custom.action.something");
    assert_eq!(engine.evaluate(&action, 500), PolicyAction::Allow);
}

#[test]
fn first_matching_rule_wins() {
    let cfg = vec![
        PolicyRuleConfig { pattern: "module.*".to_string(), action: "ask".to_string(), condition: None },
        PolicyRuleConfig { pattern: "module.create.*".to_string(), action: "allow".to_string(), condition: None },
    ];
    let engine = PolicyEngine::from_config(&cfg);
    assert_eq!(engine.evaluate(&make_action(1, "module.create.simple"), 1000), PolicyAction::Ask);
}

#[test]
fn invalid_rules_are_dropped() {
    let cfg = vec![
        PolicyRuleConfig { pattern: "module.[".to_string(), action: "deny".to_string(), condition: None },
        PolicyRuleConfig { pattern: "module.*".to_string(), action: "maybe".to_string(), condition: None },
        PolicyRuleConfig { pattern: "module.***".to_string(), action: "deny".to_string(), condition: None },
    ];
    let engine = PolicyEngine::from_config(&cfg);
    // Every rule was dropped, so everything is allowed.
    assert_eq!(engine.evaluate(&make_action(1, "module.remove.x"), 1000), PolicyAction::Allow);
}

#[test]
fn rule_compilation_from_config() {
    let cfg = PolicyRuleConfig {
        pattern: "module.create.complex".to_string(),
        action: "allow".to_string(),
        condition: Some(PolicyConditionConfig { min_confidence_thousandths: Some(800) }),
    };
    let rule: PolicyRule = rule_from_config(&cfg, true).expect("rule");
    assert_eq!(rule.pattern, "module.create.complex");
    assert_eq!(rule.action, PolicyAction::Allow);
    assert_eq!(rule.min_confidence_thousandths, Some(800));
    assert!(rule_from_config(&cfg, false).is_none());
    assert_eq!(rule.decision_on_match(799), PolicyAction::Deny);
    assert_eq!(rule.decision_on_match(800), PolicyAction::Allow);
}

#[test]
fn filter_plan_removes_denied() {
    let engine = default_engine();
    let mut plan = ActionPlan {
        id: 1,
        cycle_id: 2,
        actions: vec![
            make_action(10, "module.create.simple"),
            make_action(11, "module.remove.bad"),
            make_action(12, "module.create.complicated"),
        ],
        deferred: vec![],
        max_concurrent: 3,
    };
    let confidences = HashMap::new();
    engine.filter_plan(&mut plan, &confidences);
    assert_eq!(plan.actions.len(), 2);
    assert_eq!(plan.deferred.len(), 1);
    assert_eq!(plan.deferred[0].gap_id, 11);
    assert_eq!(plan.deferred[0].reason, "Policy denied: module.remove.bad");
}

#[test]
fn filter_plan_uses_given_confidences() {
    let engine = default_engine();
    let mut plan = ActionPlan {
        id: 1,
        cycle_id: 2,
        actions: vec![
            make_action(20, "module.create.complex"),
            make_action(21, "module.merge.a_b"),
            make_action(22, "module.create.complex"),
        ],
        deferred: vec![],
        max_concurrent: 3,
    };
    let mut confidences = HashMap::new();
    confidences.insert(20u128, 400u32);
    engine.filter_plan(&mut plan, &confidences);
    let kept: Vec<u128> = plan.actions.iter().map(|a| a.gap_id).collect();
    assert_eq!(kept, vec![22]);
    let reasons: Vec<&str> = plan.deferred.iter().map(|d| d.reason.as_str()).collect();
    assert_eq!(
        reasons,
        vec!["Policy denied: module.create.complex", "Policy requires confirmation: module.merge.a_b"]
    );
}

#[test]
fn mode_transitions() {
    let builder = SelfModelBuilder::new(300, 600);
    let model = builder.build(500, 100, 200, 300, 500, vec![]);
    assert_eq!(model.operating_mode, OperatingMode::Recovery);
    let model = builder.build(500, 500, 500, 300, 500, vec![]);
    assert_eq!(model.operating_mode, OperatingMode::Cautious);
    let model = builder.build(800, 900, 800, 700, 900, vec![]);
    assert_eq!(model.operating_mode, OperatingMode::Nominal);
}

#[test]
fn mode_boundaries_are_exact() {
    let builder = SelfModelBuilder::new(300, 600);
    // A mean of exactly the threshold is not below it.
    assert_eq!(builder.determine_mode(300, 300), OperatingMode::Cautious);
    assert_eq!(builder.determine_mode(299, 300), OperatingMode::Recovery);
    assert_eq!(builder.determine_mode(600, 600), OperatingMode::Nominal);
    assert_eq!(builder.determine_mode(1000, 199), OperatingMode::Cautious);
}

fn healthy_indicators() -> HomeostaticIndicators {
    HomeostaticIndicators { coverage: 800, stability: 900, efficiency: 700, utilization: 600, freshness: 800 }
}

#[test]
fn healthy_system_passes_thresholds() {
    let indicators = healthy_indicators();
    let config = HealthConfig::default();
    assert!(indicators.all_above_thresholds(&config));
    assert!(indicators.violations(&config).is_empty());
}

#[test]
fn unhealthy_system_reports_violations() {
    let indicators = HomeostaticIndicators { coverage: 200, stability: 300, efficiency: 100, utilization: 100, freshness: 200 };
    let config = HealthConfig::default();
    assert!(!indicators.all_above_thresholds(&config));
    let violations = indicators.violations(&config);
    assert_eq!(violations.len(), 5);
    assert_eq!(violations[1], ("stability", 300, 700));
}

fn make_evaluation(efficiency: u32) -> CycleEvaluation {
    CycleEvaluation {
        cycle_id: 1,
        modules_published: vec![],
        modules_rejected: 0,
        forge_efficiency: efficiency,
        coverage_delta: 0,
        skill_effectiveness: vec![],
        health_indicators: HomeostaticIndicators {
            coverage: 500,
            stability: 500,
            efficiency,
            utilization: 500,
            freshness: 500,
        },
        homeostatic_actions: vec![],
        evaluated_at_ms: 0,
    }
}

#[test]
fn adapt_with_insufficient_history() {
    let engine = MetaAdaptationEngine::new(MetaConfig::default());
    let evals = vec![make_evaluation(500)];
    let result = engine.adapt(&evals);
    assert!(result.min_decision_confidence.is_none());
}

#[test]
fn adapt_tightens_on_low_efficiency() {
    let engine = MetaAdaptationEngine::new(MetaConfig { adaptation_frequency_cycles: 3, ..MetaConfig::default() });
    let evals: Vec<CycleEvaluation> = (0..3).map(|_| make_evaluation(200)).collect();
    let result = engine.adapt(&evals);
    assert!(result.min_decision_confidence.is_some());
    assert!(result.min_decision_confidence.unwrap() > 700);
    assert_eq!(result.min_decision_confidence, Some(800));
}

#[test]
fn adapt_loosens_on_high_efficiency_and_uses_the_recent_window() {
    let engine = MetaAdaptationEngine::new(MetaConfig { adaptation_frequency_cycles: 2, ..MetaConfig::default() });
    let evals = vec![make_evaluation(0), make_evaluation(900), make_evaluation(800)];
    assert_eq!(engine.adapt(&evals).min_decision_confidence, Some(600));
    let middling = vec![make_evaluation(500), make_evaluation(500)];
    assert_eq!(engine.adapt(&middling).min_decision_confidence, None);
    let big_step = MetaAdaptationEngine::new(MetaConfig {
        adaptation_frequency_cycles: 1,
        adjustment_max_step_thousandths: 400,
        ..MetaConfig::default()
    });
    assert_eq!(big_step.adapt(&vec![make_evaluation(0)]).min_decision_confidence, Some(950));
    assert_eq!(big_step.adapt(&vec![make_evaluation(1000)]).min_decision_confidence, Some(500));
}

#[test]
fn lesson_extraction_threshold() {
    let engine = MetaAdaptationEngine::new(MetaConfig { lesson_repeat_threshold: 3, ..MetaConfig::default() });
    let low_evals: Vec<CycleEvaluation> = (0..3).map(|_| make_evaluation(100)).collect();
    assert!(engine.should_extract_lesson(&low_evals));
    let mixed_evals = vec![make_evaluation(100), make_evaluation(800), make_evaluation(100)];
    assert!(!engine.should_extract_lesson(&mixed_evals));
    assert!(!engine.should_extract_lesson(&low_evals[..2].to_vec()));
}

#[test]
fn runnable_actions_respect_max_concurrent() {
    let engine = DeliberationEngine::new(LimitsConfig {
        max_actions_per_cycle: 10,
        max_concurrent_actions: 2,
        ..LimitsConfig::default()
    });
    let gaps = vec![
        gap_with_priority(Priority::Low),
        gap_with_priority(Priority::Critical),
        gap_with_priority(Priority::High),
    ];
    let ids: Vec<u128> = gaps.iter().map(|g| g.id).collect();
    let plan = engine.deliberate(1, gaps, OperatingMode::Nominal);
    let run: Vec<u128> = plan.into_runnable().iter().map(|a| a.gap_id).collect();
    assert_eq!(run, vec![ids[1], ids[2]]);
}
