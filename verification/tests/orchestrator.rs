use project_e::cycle::CycleResult;
use project_e::cycle_runner::{cycle_stability, forge_efficiency, perception_summary};
use project_e::cycle_runner::{
    gap_report_from_item, gap_reports_from_items, push_and_trim, strip_code_fences, trim_history,
    usable_source, FailureTracker, ForgeTally, GapItem, RunnerDecision, MAX_CONSECUTIVE_FAILURES,
};
use project_e::module_adapter::{phase_from_hint, tool_name_for};
use project_e::supervisor::Supervisor;
use project_e::types::{
    AnomalyPattern, CognitivePhase, CynefinDomain, GapClassification, InterventionType,
    LifecycleAction, Priority, WardleyStage,
};

fn count(s: &Supervisor, p: AnomalyPattern) -> Option<u32> {
    s.anomaly_counts()[p.index()]
}

#[test]
fn intervention_after_threshold() {
    let mut supervisor = Supervisor::new(3);
    assert!(supervisor.record_anomaly(AnomalyPattern::RepeatedCompilationErrors).is_none());
    assert!(supervisor.record_anomaly(AnomalyPattern::RepeatedCompilationErrors).is_none());
    let intervention = supervisor.record_anomaly(AnomalyPattern::RepeatedCompilationErrors);
    assert!(intervention.is_some());
    assert!(matches!(intervention.unwrap(), InterventionType::PromptInjection { .. }));
}

#[test]
fn counter_resets_after_intervention() {
    let mut supervisor = Supervisor::new(2);
    supervisor.record_anomaly(AnomalyPattern::ErrorStorm);
    let intervention = supervisor.record_anomaly(AnomalyPattern::ErrorStorm);
    assert!(intervention.is_some());
    assert_eq!(count(&supervisor, AnomalyPattern::ErrorStorm).unwrap_or(0), 0);
}

#[test]
fn independent_pattern_tracking() {
    let mut supervisor = Supervisor::new(3);
    supervisor.record_anomaly(AnomalyPattern::ErrorStorm);
    supervisor.record_anomaly(AnomalyPattern::RepeatedCompilationErrors);
    supervisor.record_anomaly(AnomalyPattern::ErrorStorm);
    assert_eq!(count(&supervisor, AnomalyPattern::ErrorStorm), Some(2));
    assert_eq!(count(&supervisor, AnomalyPattern::RepeatedCompilationErrors), Some(1));
    assert_eq!(count(&supervisor, AnomalyPattern::StaleData), None);
}

#[test]
fn interventions_per_pattern() {
    let mut s = Supervisor::new(1);
    match s.record_anomaly(AnomalyPattern::RepeatedCompilationErrors) {
        Some(InterventionType::PromptInjection { guidance }) => {
            assert_eq!(guidance, "Focus on simpler module structure")
        }
        other => panic!("unexpected {other:?}"),
    }
    match s.record_anomaly(AnomalyPattern::EfficiencyCollapse) {
        Some(InterventionType::ModelEscalation { to_model }) => assert_eq!(to_model, "model_for_retry"),
        other => panic!("unexpected {other:?}"),
    }
    assert_eq!(
        s.record_anomaly(AnomalyPattern::RecoveryLoop),
        Some(InterventionType::TightenConfidenceThreshold { delta_thousandths: 50 })
    );
    assert_eq!(s.record_anomaly(AnomalyPattern::ErrorStorm), Some(InterventionType::PauseCycle { duration_secs: 300 }));
    assert_eq!(s.record_anomaly(AnomalyPattern::StaleData), Some(InterventionType::ResetCounters));
    assert_eq!(s.record_anomaly(AnomalyPattern::RedundantModules), Some(InterventionType::ForceRecoveryMode));
    assert_eq!(
        s.record_anomaly(AnomalyPattern::ContextOverflow),
        Some(InterventionType::SkipPhase { phase: CognitivePhase::MetaAdaptation })
    );
}

#[test]
fn zero_threshold_intervenes_every_time_and_reset_forgets() {
    let mut s = Supervisor::new(0);
    assert!(s.record_anomaly(AnomalyPattern::StaleData).is_some());
    assert!(s.record_anomaly(AnomalyPattern::StaleData).is_some());
    assert_eq!(count(&s, AnomalyPattern::StaleData), Some(0));
    s.reset();
    assert!(s.anomaly_counts().iter().all(|c| c.is_none()));
    assert_eq!(s.anomaly_counts().len(), 7);
}

#[test]
fn cycle_result_creation() {
    let result = CycleResult::new(42, 120);
    assert_eq!(result.duration_secs, 120);
    assert!(result.phases_completed.is_empty());
    assert_eq!(result.cycle_id, 42);
    assert!(result.completed_at_ms > 0);
}

#[test]
fn runner_stops_after_three_failures() {
    assert_eq!(MAX_CONSECUTIVE_FAILURES, 3);
    let mut t = FailureTracker::new();
    assert_eq!(t.after_cycle(false), RunnerDecision::Continue);
    assert_eq!(t.after_cycle(false), RunnerDecision::Continue);
    assert_eq!(t.consecutive_failures(), 2);
    assert_eq!(t.after_cycle(false), RunnerDecision::Stop);

    let mut t = FailureTracker::new();
    t.after_cycle(false);
    t.after_cycle(false);
    assert_eq!(t.after_cycle(true), RunnerDecision::Continue);
    assert_eq!(t.consecutive_failures(), 0);
    assert_eq!(t.after_cycle(false), RunnerDecision::Continue);
}

#[test]
fn history_keeps_the_window() {
    let mut h: Vec<u32> = (1..=5).collect();
    trim_history(&mut h, 3);
    assert_eq!(h, vec![3, 4, 5]);
    trim_history(&mut h, 0);
    assert_eq!(h, vec![5]);
    push_and_trim(&mut h, 6, 2);
    assert_eq!(h, vec![5, 6]);
    push_and_trim(&mut h, 7, 2);
    assert_eq!(h, vec![6, 7]);
    let mut short = vec![1u32];
    trim_history(&mut short, 10);
    assert_eq!(short, vec![1]);
}

#[test]
fn code_fences_are_stripped() {
    assert_eq!(strip_code_fences("  ```json\n[{\"a\":1}]\n```  "), "[{\"a\":1}]");
    assert_eq!(strip_code_fences("```\n[]\n``````"), "[]");
    assert_eq!(strip_code_fences("[1, 2]"), "[1, 2]");
    assert_eq!(strip_code_fences("```json```json x"), "x");
    assert_eq!(strip_code_fences(""), "");
}

#[test]
fn gap_items_become_reports() {
    let item = GapItem {
        description: Some("Missing tariff module".to_string()),
        confidence_thousandths: Some(850),
        priority: Some("high".to_string()),
        domain: Some("complex".to_string()),
    };
    let r = gap_report_from_item(5, &item);
    assert_eq!(r.cycle_id, 5);
    assert_eq!(r.classification, GapClassification::Gap);
    assert_eq!(r.priority, Priority::High);
    assert_eq!(r.cynefin_domain, CynefinDomain::Complex);
    assert_eq!(r.wardley_stage, WardleyStage::Custom);
    assert_eq!(r.suggested_action, LifecycleAction::Create);
    assert_eq!(r.justification, "Missing tariff module");
    assert_eq!(r.confidence_thousandths, 850);

    let blank = GapItem { description: None, confidence_thousandths: None, priority: Some("urgent".to_string()), domain: None };
    let r = gap_report_from_item(5, &blank);
    assert_eq!(r.justification, "unknown gap");
    assert_eq!(r.confidence_thousandths, 600);
    assert_eq!(r.priority, Priority::Medium);
    assert_eq!(r.cynefin_domain, CynefinDomain::Simple);

    let low = GapItem { description: None, confidence_thousandths: Some(100), priority: Some("low".to_string()), domain: Some("chaotic".to_string()) };
    let reports = gap_reports_from_items(9, &vec![item, blank, low]);
    assert_eq!(reports.len(), 3);
    assert_eq!(reports[2].priority, Priority::Low);
    assert_eq!(reports[2].cynefin_domain, CynefinDomain::Chaotic);
    assert_ne!(reports[0].id, reports[1].id);
}

#[test]
fn action_phase_tally() {
    assert!(!usable_source("  \n\t"));
    assert!(usable_source(" fn f() {} "));
    let mut t = ForgeTally::new();
    assert_eq!(t.generation_call_index(), 1);
    t.record(true);
    t.record(false);
    assert_eq!((t.published, t.rejected), (1, 1));
    assert_eq!(t.generation_call_index(), 3);
}

#[test]
fn tool_adapter_names_and_phases() {
    assert_eq!(tool_name_for("echo"), "project_e.echo");
    assert_eq!(phase_from_hint(Some("evaluation")), CognitivePhase::Evaluation);
    assert_eq!(phase_from_hint(Some("bogus")), CognitivePhase::Action);
    assert_eq!(phase_from_hint(None), CognitivePhase::Action);
}

#[test]
fn efficiency_and_stability_scores() {
    assert_eq!(forge_efficiency(0, 0), 1000);
    assert_eq!(forge_efficiency(1, 3), 333);
    assert_eq!(forge_efficiency(3, 3), 1000);
    assert_eq!(cycle_stability(0, 10), 1000);
    assert_eq!(cycle_stability(3, 10), 700);
    assert_eq!(cycle_stability(12, 10), 0);
    assert_eq!(cycle_stability(0, 0), 0);
}

#[test]
fn perception_summary_keeps_five_items_and_200_chars() {
    let long = "x".repeat(250);
    let mut items: Vec<(String, String)> = Vec::new();
    items.push(("workspace".to_string(), long.clone()));
    for i in 0..6 {
        items.push((format!("src{i}"), format!("item {i}")));
    }
    let summary = perception_summary(&items);
    let lines: Vec<&str> = summary.split('\n').collect();
    assert_eq!(lines.len(), 5);
    assert_eq!(lines[0], format!("\u{2022} workspace: {}", "x".repeat(200)));
    assert_eq!(lines[1], "\u{2022} src0: item 0");
    assert_eq!(lines[4], "\u{2022} src3: item 3");
}

#[test]
fn perception_summary_of_nothing_is_empty() {
    assert_eq!(perception_summary(&Vec::new()), "");
    let one = vec![("web".to_string(), "héllo".to_string())];
    assert_eq!(perception_summary(&one), "\u{2022} web: héllo");
}
