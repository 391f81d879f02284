use project_e::event_bus::{topic_matches, EventKind, LogSeverity};
use project_e::topics::{namespace, wildcards};

#[test]
fn topic_matching() {
    assert!(topic_matches("project_e.system.cycle_started", "project_e.system.cycle_started"));
    assert!(topic_matches("project_e.perception.*", "project_e.perception.complete"));
    assert!(!topic_matches("project_e.perception.*", "project_e.analysis.ready"));
    assert!(topic_matches(">", "anything.goes.here"));
}

#[test]
fn wildcard_edges() {
    assert!(topic_matches("project_e.forge.>", "project_e.forge.gate_pass"));
    assert!(!topic_matches("project_e.forge.*", "project_e.forge"));
    assert!(!topic_matches("project_e.forge.*", "project_e.forgery.x"));
    assert!(!topic_matches("project_e.forge", "project_e.forge.gate_pass"));
}

#[test]
fn topic_namespaces_are_consistent() {
    assert!(wildcards::ALL_SYSTEM.starts_with(namespace::SYSTEM));
    assert!(wildcards::ALL_FORGE.starts_with(namespace::FORGE));
}

#[test]
fn all_events_have_topics() {
    for k in [
        EventKind::CycleStarted,
        EventKind::PerceptionComplete,
        EventKind::CycleClosed,
        EventKind::CircuitBreakerOpen,
    ] {
        assert!(!k.topic().is_empty());
    }
    assert_eq!(EventKind::GapReportReady.topic(), "project_e.analysis.gap_report_ready");
    assert_eq!(EventKind::ActionPlanReady.topic(), "project_e.meta.action_plan_created");
}

#[test]
fn cycle_id_extraction() {
    let cycle_id: u128 = 0x1234_5678_9abc_def0_1234_5678_9abc_def0;
    assert_eq!(EventKind::ForgeStarted.cycle_id(cycle_id), Some(cycle_id));
    assert_eq!(EventKind::CircuitBreakerOpen.cycle_id(cycle_id), None);
    assert_eq!(EventKind::HealthAlert.cycle_id(cycle_id), None);
}

#[test]
fn topics_fall_under_their_namespace_wildcards() {
    assert!(topic_matches(wildcards::ALL_SYSTEM, EventKind::CycleStarted.topic()));
    assert!(topic_matches(wildcards::ALL_FORGE, EventKind::GateFail.topic()));
    assert!(!topic_matches(wildcards::ALL_FORGE, EventKind::CycleClosed.topic()));
}

#[test]
fn log_severities() {
    assert_eq!(EventKind::CycleStarted.log_severity(), LogSeverity::Info);
    assert_eq!(EventKind::CircuitBreakerClosed.log_severity(), LogSeverity::Info);
    assert_eq!(EventKind::GateFail.log_severity(), LogSeverity::Warn);
    assert_eq!(EventKind::CircuitBreakerOpen.log_severity(), LogSeverity::Warn);
    assert_eq!(EventKind::GatePass.log_severity(), LogSeverity::Debug);
}

#[test]
fn every_topic_has_the_three_part_form_and_is_unique() {
    let kinds = [
        EventKind::CycleStarted,
        EventKind::PerceptionComplete,
        EventKind::CrawlComplete,
        EventKind::GapReportReady,
        EventKind::GapDetected,
        EventKind::SelfModelUpdated,
        EventKind::ActionPlanReady,
        EventKind::ActionDeferred,
        EventKind::ForgeStarted,
        EventKind::GatePass,
        EventKind::GateFail,
        EventKind::ModulePublished,
        EventKind::ModuleRejected,
        EventKind::EvaluationComplete,
        EventKind::ModuleDeprecated,
        EventKind::ParameterAdjusted,
        EventKind::ConstitutionalLesson,
        EventKind::CycleClosed,
        EventKind::HealthAlert,
        EventKind::SupervisorIntervention,
        EventKind::CircuitBreakerOpen,
        EventKind::CircuitBreakerClosed,
    ];
    let domains = ["system", "perception", "analysis", "meta", "forge", "registry"];
    let mut seen: Vec<&str> = Vec::new();
    for kind in kinds {
        let topic = kind.topic();
        let parts: Vec<&str> = topic.split('.').collect();
        assert_eq!(parts.len(), 3, "{topic}");
        assert_eq!(parts[0], "project_e");
        assert!(domains.contains(&parts[1]), "{topic}");
        assert!(!parts[2].is_empty());
        assert!(topic_matches("project_e.>", topic));
        assert!(!seen.contains(&topic), "{topic} used twice");
        seen.push(topic);
    }
}

#[test]
fn events_are_logged_with_their_own_messages() {
    assert_eq!(EventKind::CycleStarted.log_message(), "project_e: cognitive cycle started");
    assert_eq!(EventKind::ModuleRejected.log_message(), "project_e: module rejected after all retries");
    assert_eq!(EventKind::CircuitBreakerClosed.log_message(), "project_e: LLM circuit breaker closed (recovered)");
    assert_eq!(EventKind::GatePass.log_message(), "project_e: cognitive event");
}
