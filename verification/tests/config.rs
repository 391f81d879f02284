use project_e::config_layers::overlay_layer;
use project_e::config::{
    owned, CircuitBreakerConfig, ForgeConfig, InstanceConfig, LimitsConfig, LlmConfig, PoliciesConfig,
};

#[test]
fn default_sections() {
    let i = InstanceConfig::default();
    assert_eq!((i.name.as_str(), i.sector.as_str(), i.region.as_str()), ("default", "general", "global"));
    let c = CircuitBreakerConfig::default();
    assert!(c.enabled);
    assert_eq!(c.failure_threshold, 5);
    assert_eq!(c.cooldown_ms, 60_000);
    let l = LimitsConfig::default();
    assert_eq!(l.max_actions_per_cycle, 10);
    assert_eq!(l.max_concurrent_actions, 3);
    let _ = ForgeConfig::default();
    assert_eq!(owned("x"), "x");
}

#[test]
fn default_policies() {
    let p = PoliciesConfig::default();
    let patterns: Vec<&str> = p.rules.iter().map(|r| r.pattern.as_str()).collect();
    assert_eq!(
        patterns,
        vec!["module.create.simple", "module.create.complex", "module.deprecate.*", "module.remove.*", "module.merge.*"]
    );
    assert_eq!(p.rules[1].condition.as_ref().and_then(|c| c.min_confidence_thousandths), Some(800));
    assert_eq!(p.rules[3].action, "deny");
}

fn path(keys: &[&str]) -> Vec<String> {
    keys.iter().map(|k| k.to_string()).collect()
}

fn value_at<'a>(settings: &'a [(Vec<String>, i64)], keys: &[&str]) -> Option<&'a i64> {
    settings.iter().find(|(p, _)| *p == path(keys)).map(|(_, v)| v)
}

#[test]
fn layered_merge_preserves_unspecified_nested_values() {
    let defaults = vec![
        (path(&["forge", "max_retries"]), 3),
        (path(&["forge", "compile_timeout_secs"]), 120),
        (path(&["forge", "test_timeout_secs"]), 60),
        (path(&["limits", "max_actions_per_cycle"]), 10),
    ];
    let custom = vec![(path(&["forge", "max_retries"]), 7)];
    let merged = overlay_layer(defaults, custom);
    assert_eq!(value_at(&merged, &["forge", "max_retries"]), Some(&7));
    assert_eq!(value_at(&merged, &["forge", "compile_timeout_secs"]), Some(&120));
    assert_eq!(value_at(&merged, &["forge", "test_timeout_secs"]), Some(&60));
    assert_eq!(value_at(&merged, &["limits", "max_actions_per_cycle"]), Some(&10));
    assert_eq!(merged.len(), 4);
}

#[test]
fn overlay_replaces_whole_branches() {
    let base = vec![(path(&["a", "b"]), 1), (path(&["a", "c"]), 2), (path(&["d"]), 3)];
    // A value where a table was drops the table's settings.
    let merged = overlay_layer(base.clone(), vec![(path(&["a"]), 9)]);
    assert_eq!(merged, vec![(path(&["d"]), 3), (path(&["a"]), 9)]);
    // A table where a value was drops the value.
    let merged = overlay_layer(base, vec![(path(&["d", "e"]), 5)]);
    assert_eq!(merged, vec![(path(&["a", "b"]), 1), (path(&["a", "c"]), 2), (path(&["d", "e"]), 5)]);
}

#[test]
fn default_config_is_valid() {
    let instance = InstanceConfig::default();
    let llm = LlmConfig::default();
    let limits = LimitsConfig::default();
    assert_eq!(instance.name, "default");
    assert!(llm.circuit_breaker.enabled);
    assert_eq!(llm.circuit_breaker.failure_threshold, 5);
    assert_eq!(limits.max_actions_per_cycle, 10);
}
