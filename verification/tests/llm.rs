use project_e::config::{cognitive_failure_threshold, CircuitBreakerConfig, PhaseRoutingConfig};
use project_e::error::{BridgeError, ProjectEError};
use project_e::llm_bridge::{admit_call_at, check_call_budget, settle_call_at};
use project_e::llm_health::{CircuitState, LlmHealthMonitor, PhaseModelRouter};
use project_e::types::CognitivePhase;

fn test_config() -> CircuitBreakerConfig {
    CircuitBreakerConfig {
        enabled: true,
        probe_interval_ms: 100,
        failure_threshold: 3,
        cooldown_ms: 200,
        probe_timeout_ms: 50,
    }
}

#[test]
fn phase_model_routing() {
    let router = PhaseModelRouter::new(PhaseRoutingConfig::default());
    assert_eq!(router.model_for_phase(CognitivePhase::Perception), "model_for_analysis");
    assert_eq!(router.model_for_phase(CognitivePhase::Action), "model_for_generation");
}

#[test]
fn circuit_starts_closed() {
    let mut monitor = LlmHealthMonitor::new("test".to_string(), test_config());
    assert_eq!(monitor.current_state(), CircuitState::Closed);
    assert!(monitor.check_before_call().is_ok());
}

#[test]
fn circuit_opens_after_threshold_failures() {
    let mut monitor = LlmHealthMonitor::new("test".to_string(), test_config());
    for _ in 0..3 {
        monitor.record_outcome(false);
    }
    assert!(matches!(monitor.current_state(), CircuitState::Open { .. }));
    assert!(monitor.check_before_call().is_err());
}

#[test]
fn circuit_recovers_after_cooldown() {
    let mut monitor = LlmHealthMonitor::new("test".to_string(), test_config());
    for _ in 0..3 {
        monitor.record_outcome_at(false, 1_000);
    }
    assert!(monitor.check_before_call_at(1_100).is_err());

    // After the 200 ms cooldown the next check lets a probe through.
    assert!(monitor.check_before_call_at(1_250).is_ok());
    assert_eq!(monitor.current_state(), CircuitState::HalfOpen);

    monitor.record_outcome_at(true, 1_300);
    assert_eq!(monitor.current_state(), CircuitState::Closed);
}

#[test]
fn circuit_recovers_after_real_cooldown() {
    let mut monitor = LlmHealthMonitor::new("test".to_string(), test_config());
    for _ in 0..3 {
        monitor.record_outcome(false);
    }
    assert!(monitor.check_before_call().is_err());
    let start = std::time::Instant::now();
    while start.elapsed() < std::time::Duration::from_millis(250) {
        std::hint::spin_loop();
    }
    assert!(monitor.check_before_call().is_ok());
    assert_eq!(monitor.current_state(), CircuitState::HalfOpen);
    monitor.record_outcome(true);
    assert_eq!(monitor.current_state(), CircuitState::Closed);
}

#[test]
fn success_resets_failure_count() {
    let mut monitor = LlmHealthMonitor::new("test".to_string(), test_config());
    monitor.record_outcome(false);
    monitor.record_outcome(false);
    assert_eq!(monitor.failure_count(), 2);
    monitor.record_outcome(true);
    assert_eq!(monitor.failure_count(), 0);
}

#[test]
fn disabled_circuit_always_allows() {
    let config = CircuitBreakerConfig { enabled: false, ..test_config() };
    let mut monitor = LlmHealthMonitor::new("test".to_string(), config);
    for _ in 0..10 {
        monitor.record_outcome(false);
    }
    assert!(monitor.check_before_call().is_ok());
}

#[test]
fn open_circuit_names_the_provider() {
    let mut monitor = LlmHealthMonitor::new("openai".to_string(), test_config());
    for _ in 0..3 {
        monitor.record_outcome_at(false, 10);
    }
    match monitor.check_before_call_at(20) {
        Err(ProjectEError::CircuitOpen { provider }) => assert_eq!(provider, "openai"),
        other => panic!("expected an open circuit, got {other:?}"),
    }
    assert_eq!(monitor.provider_name(), "openai");
    // Still open just before the cooldown ends, half-open at its end.
    assert!(monitor.check_before_call_at(209).is_err());
    assert!(monitor.check_before_call_at(210).is_ok());
}

#[test]
fn half_open_failure_keeps_counting() {
    let mut monitor = LlmHealthMonitor::new("p".to_string(), test_config());
    for _ in 0..3 {
        monitor.record_outcome_at(false, 0);
    }
    assert!(monitor.check_before_call_at(500).is_ok());
    monitor.record_outcome_at(false, 600);
    assert_eq!(monitor.failure_count(), 4);
    assert_eq!(monitor.current_state(), CircuitState::Open { opened_at_ms: 600 });
}

#[test]
fn call_index_budget_boundary() {
    let max = 2_usize;
    assert!(check_call_budget(0, max).is_ok(), "index 0 should be within limit");
    assert!(check_call_budget(1, max).is_ok(), "index 1 should be within limit");
    assert!(check_call_budget(2, max).is_err(), "index 2 should exceed limit");
}

#[test]
fn budget_refusal_reason() {
    match check_call_budget(20, 20) {
        Err(BridgeError::BudgetExceeded { reason }) => {
            assert_eq!(reason, "cognitive cycle LLM call limit (20) reached")
        }
        other => panic!("expected a budget refusal, got {other:?}"),
    }
    assert!(check_call_budget(0, 0).is_err());
}

#[test]
fn cognitive_threshold_is_at_least_eight() {
    assert_eq!(cognitive_failure_threshold(5), 8);
    assert_eq!(cognitive_failure_threshold(8), 8);
    assert_eq!(cognitive_failure_threshold(12), 12);
}

#[test]
fn half_open_lets_a_single_probe_through() {
    let mut monitor = LlmHealthMonitor::new("p".to_string(), test_config());
    for _ in 0..3 {
        monitor.record_outcome_at(false, 0);
    }
    assert!(monitor.check_before_call_at(500).is_ok());
    assert_eq!(monitor.current_state(), CircuitState::HalfOpen);
    match monitor.check_before_call_at(520) {
        Err(ProjectEError::CircuitOpen { provider }) => assert_eq!(provider, "p"),
        other => panic!("expected the probe to be outstanding, got {other:?}"),
    }
    assert!(monitor.check_before_call_at(549).is_err());
    assert_eq!(monitor.current_state(), CircuitState::HalfOpen);
    monitor.record_outcome_at(true, 549);
    assert!(monitor.check_before_call_at(550).is_ok());
    assert_eq!(monitor.current_state(), CircuitState::Closed);
}

#[test]
fn lost_probe_is_replaced_after_the_probe_timeout() {
    let mut monitor = LlmHealthMonitor::new("p".to_string(), test_config());
    for _ in 0..3 {
        monitor.record_outcome_at(false, 0);
    }
    assert!(monitor.check_before_call_at(500).is_ok());
    // The probe's outcome is never recorded; 50 ms later a new probe goes.
    assert!(monitor.check_before_call_at(549).is_err());
    assert!(monitor.check_before_call_at(550).is_ok());
    assert!(monitor.check_before_call_at(560).is_err());
    assert_eq!(monitor.current_state(), CircuitState::HalfOpen);
}

#[test]
fn bridge_checks_budget_before_the_breaker() {
    let mut monitor = LlmHealthMonitor::new("p".to_string(), test_config());
    for _ in 0..3 {
        monitor.record_outcome_at(false, 0);
    }
    // Beyond the budget the breaker is not consulted, so the probe is not used up.
    match admit_call_at(&mut monitor, 5, 5, 500) {
        Err(BridgeError::BudgetExceeded { reason }) => {
            assert_eq!(reason, "cognitive cycle LLM call limit (5) reached")
        }
        _ => panic!("expected the budget to refuse"),
    }
    assert!(matches!(monitor.current_state(), CircuitState::Open { .. }));
    let permit = match admit_call_at(&mut monitor, 0, 5, 500) {
        Ok(p) => p,
        Err(_) => panic!("expected the probe to be admitted"),
    };
    match admit_call_at(&mut monitor, 1, 5, 510) {
        Err(BridgeError::CircuitOpen { reason }) => {
            assert_eq!(reason, "circuit breaker open for provider 'p'")
        }
        _ => panic!("expected the breaker to refuse"),
    }
    settle_call_at(&mut monitor, permit, true, 520);
    assert_eq!(monitor.current_state(), CircuitState::Closed);
    assert!(admit_call_at(&mut monitor, 1, 5, 530).is_ok());
}
