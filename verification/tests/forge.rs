use project_e::error::ForgeError;
use project_e::forge::{
    check_forbidden_patterns, command_gate_verdict, failed_gate, pipeline_next, run_static_gates,
    unsafe_check_verdict, Capabilities, CommandOutcome, GateError, GateResult, NetworkPolicy,
    PipelineStep, RetryState,
};
use project_e::config::ForgeConfig;
use project_e::forge_runner::{
    forge_module_name, module_document_path, scaffold_manifest, ForgeAttempts, ForgeDecision,
};
use project_e::types::GateName;

#[test]
fn default_denies_network() {
    let caps = Capabilities::default();
    assert!(!caps.allow_http);
    assert_eq!(caps.network_policy, NetworkPolicy::DenyAll);
}

#[test]
fn web_access_caps() {
    let caps = Capabilities::from_web_access(true, vec!["api.example.com".to_string()]);
    assert!(caps.allow_http);
    assert_eq!(caps.network_policy, NetworkPolicy::AllowListed);
    assert_eq!(caps.allow_domains.len(), 1);
}

#[test]
fn offline_caps_keep_defaults() {
    let caps = Capabilities::from_web_access(false, vec![]);
    assert!(!caps.allow_http);
    assert_eq!(caps.network_policy, NetworkPolicy::DenyAll);
    assert_eq!(caps.max_http_requests, 50);
    assert_eq!(caps.max_memory_bytes, 128 * 1024 * 1024);
    assert_eq!(caps.timeout_secs, 30);
}

#[test]
fn clean_code_passes() {
    let code = r#"
            fn safe() -> Result<String, Error> {
                let value = some_fn()?;
                Ok(value)
            }
        "#;
    assert!(check_forbidden_patterns(code).is_pass());
}

#[test]
fn unwrap_is_forbidden() {
    let code = r#"
            fn bad() -> String {
                some_option().unwrap()
            }
        "#;
    assert!(!check_forbidden_patterns(code).is_pass());
}

#[test]
fn panic_is_forbidden() {
    let code = r#"
            fn bad() {
                panic!("oh no");
            }
        "#;
    assert!(!check_forbidden_patterns(code).is_pass());
}

#[test]
fn todo_is_forbidden() {
    let code = r#"
            fn incomplete() {
                todo!()
            }
        "#;
    assert!(!check_forbidden_patterns(code).is_pass());
}

#[test]
fn comments_with_patterns_are_ok() {
    let code = r#"
            // This used to use unwrap() but we fixed it
            /// Example: .unwrap()
            fn safe() -> Result<(), Error> {
                Ok(())
            }
        "#;
    assert!(check_forbidden_patterns(code).is_pass());
}

#[test]
fn forbidden_report_lists_each_violation() {
    let code = "let a = x.unwrap();\nlet b = y.expect(\"e\"); todo!()";
    match check_forbidden_patterns(code) {
        GateResult::Fail(e) => {
            assert_eq!(e.gate, GateName::ForbiddenPatterns);
            assert_eq!(e.message, "Found 3 forbidden pattern(s)");
            assert_eq!(
                e.details.as_deref(),
                Some(
                    "line 1: .unwrap() — Use `?` operator or error handling instead of unwrap()\n\
                     line 2: .expect( — Use `?` operator or error handling instead of expect()\n\
                     line 2: todo!( — Do not leave todo!() in module code"
                )
            );
        }
        GateResult::Pass => panic!("violations expected"),
    }
}

#[test]
fn gate_sequence() {
    assert!(GateName::UnsafeCheck.ordinal() < GateName::ForbiddenPatterns.ordinal());
    assert!(GateName::ForbiddenPatterns.ordinal() < GateName::Compile.ordinal());
    assert!(GateName::Compile.ordinal() < GateName::Clippy.ordinal());
    assert!(GateName::Clippy.ordinal() < GateName::Audit.ordinal());
    assert!(GateName::Audit.ordinal() < GateName::Test.ordinal());
}

#[test]
fn unsafe_verdicts() {
    assert!(unsafe_check_verdict(Ok(vec![])).is_pass());
    match unsafe_check_verdict(Ok(vec!["unsafe block".to_string(), "unsafe fn: f".to_string()])) {
        GateResult::Fail(e) => {
            assert_eq!(e.gate, GateName::UnsafeCheck);
            assert_eq!(e.message, "Found 2 unsafe block(s)");
            assert_eq!(e.details.as_deref(), Some("unsafe block; unsafe fn: f"));
        }
        GateResult::Pass => panic!("unsafe code must fail"),
    }
    match unsafe_check_verdict(Err("expected item".to_string())) {
        GateResult::Fail(e) => {
            assert_eq!(e.message, "Failed to parse source");
            assert_eq!(e.details.as_deref(), Some("expected item"));
        }
        GateResult::Pass => panic!("unparsable source must fail"),
    }
}

#[test]
fn static_gates_stop_at_the_first_failure() {
    let r = run_static_gates("x.unwrap()", Err("bad".to_string()));
    assert_eq!(failed_gate(&r), Some(GateName::UnsafeCheck));
    let r = run_static_gates("x.unwrap()", Ok(vec![]));
    assert_eq!(failed_gate(&r), Some(GateName::ForbiddenPatterns));
    let r = run_static_gates("fn f() {}", Ok(vec![]));
    assert_eq!(failed_gate(&r), None);
}

#[test]
fn command_gate_verdicts() {
    let ok = CommandOutcome::Finished { success: true, stdout: String::new(), stderr: String::new() };
    assert!(command_gate_verdict(GateName::Compile, ok, 120).is_pass());

    let failed = CommandOutcome::Finished {
        success: false,
        stdout: "out".to_string(),
        stderr: "err".to_string(),
    };
    match command_gate_verdict(GateName::Compile, failed.clone(), 120) {
        GateResult::Fail(e) => {
            assert_eq!(e.message, "Compilation failed");
            assert_eq!(e.details.as_deref(), Some("err"));
        }
        GateResult::Pass => panic!("failed build must fail"),
    }
    match command_gate_verdict(GateName::Test, failed, 120) {
        GateResult::Fail(e) => {
            assert_eq!(e.message, "Tests failed");
            assert_eq!(e.details.as_deref(), Some("out\nerr"));
        }
        GateResult::Pass => panic!("failed tests must fail"),
    }

    let missing = CommandOutcome::NotRun { error: "not found".to_string() };
    assert!(command_gate_verdict(GateName::Audit, missing.clone(), 60).is_pass());
    match command_gate_verdict(GateName::Clippy, missing, 60) {
        GateResult::Fail(e) => {
            assert_eq!(e.gate, GateName::Clippy);
            assert_eq!(e.message, "Failed to run cargo clippy");
            assert_eq!(e.details.as_deref(), Some("not found"));
        }
        GateResult::Pass => panic!("clippy that cannot run must fail"),
    }

    match command_gate_verdict(GateName::Audit, CommandOutcome::TimedOut, 60) {
        GateResult::Fail(e) => {
            assert_eq!(e.message, "Audit timed out after 60s");
            assert!(e.details.is_none());
        }
        GateResult::Pass => panic!("timeout must fail"),
    }
}

#[test]
fn retry_state_tracks_best() {
    let mut state = RetryState::new(5);
    assert!(state.can_retry());
    assert!(state.best_candidate.is_none());

    state.record_attempt(
        "code v1",
        GateName::UnsafeCheck,
        GateError::new(GateName::ForbiddenPatterns, "found unwrap".to_string()),
    );
    assert_eq!(state.best_gate(), Some(GateName::UnsafeCheck));

    state.record_attempt(
        "code v2",
        GateName::Compile,
        GateError::new(GateName::Clippy, "warnings".to_string()),
    );
    assert_eq!(state.best_gate(), Some(GateName::Compile));
    assert_eq!(state.best_for_report(), Some("code v2"));

    state.record_attempt(
        "code v3",
        GateName::UnsafeCheck,
        GateError::new(GateName::ForbiddenPatterns, "unwrap again".to_string()),
    );
    assert_eq!(state.best_for_report(), Some("code v2"));
}

#[test]
fn escalation_after_two_failures() {
    let mut state = RetryState::new(5);
    assert!(!state.should_escalate());

    state.record_attempt("v1", GateName::Compile, GateError::new(GateName::Compile, "error".to_string()));
    assert!(!state.should_escalate());

    state.record_attempt("v2", GateName::Compile, GateError::new(GateName::Compile, "error".to_string()));
    assert!(state.should_escalate());

    state.mark_escalated();
    assert!(!state.should_escalate());
}

#[test]
fn can_retry_respects_max() {
    let mut state = RetryState::new(2);
    assert!(state.can_retry());

    state.record_attempt("v1", GateName::Compile, GateError::new(GateName::Compile, "err".to_string()));
    assert!(state.can_retry());

    state.record_attempt("v2", GateName::Compile, GateError::new(GateName::Compile, "err".to_string()));
    assert!(!state.can_retry());
}

#[test]
fn success_is_the_best_candidate() {
    let mut state = RetryState::new(3);
    state.record_attempt("v1", GateName::Clippy, GateError::new(GateName::Clippy, "w".to_string()));
    state.record_success("v2");
    assert_eq!(state.best_gate(), Some(GateName::Test));
    assert_eq!(state.best_for_report(), Some("v2"));
    assert_eq!(state.attempt, 2);
    assert_eq!(state.error_history.len(), 1);
}

#[test]
fn forge_runs_until_publish_or_reject() {
    let fail = GateResult::Fail(GateError::new(GateName::Compile, "Compilation failed".to_string()));
    let mut attempts = ForgeAttempts::new(2);
    assert!(matches!(attempts.on_gate_result(&fail), ForgeDecision::RunAgain { gate: GateName::Compile, .. }));
    assert!(matches!(attempts.on_gate_result(&fail), ForgeDecision::RunAgain { .. }));
    match attempts.on_gate_result(&fail) {
        ForgeDecision::Reject { error, reason, attempts } => {
            assert_eq!(attempts, 3);
            assert_eq!(reason, "gate 'Compile' failed: Compilation failed");
            assert!(matches!(error, ForgeError::GateFailed { gate: GateName::Compile, .. }));
        }
        _ => panic!("third failure must reject"),
    }

    let mut attempts = ForgeAttempts::new(2);
    assert!(matches!(attempts.on_gate_result(&fail), ForgeDecision::RunAgain { .. }));
    assert!(matches!(attempts.on_gate_result(&GateResult::Pass), ForgeDecision::Publish));
}

#[test]
fn forge_names_and_paths() {
    assert_eq!(forge_module_name(0xabc), "gap_00000000000000000000000000000abc");
    let manifest = scaffold_manifest("gap_x");
    assert!(manifest.starts_with("[package]\nname = \"gap_x\"\n"));
    assert_eq!(module_document_path("2024-05-01", "gap_x"), "modules/2024-05-01/gap_x.rs");
}

#[test]
fn gate_error_becomes_forge_error() {
    let e = GateError::new(GateName::Clippy, "Clippy warnings found".to_string());
    match e.into_project_error() {
        project_e::error::ProjectEError::Forge { reason } => {
            assert_eq!(reason, "gate Clippy failed: Clippy warnings found")
        }
        other => panic!("unexpected {other:?}"),
    }
}

#[test]
fn pipeline_runs_command_gates_in_order_with_their_timeouts() {
    let config = ForgeConfig::default();
    let mut gate = GateName::ForbiddenPatterns;
    let mut seen: Vec<(GateName, u64)> = Vec::new();
    loop {
        match pipeline_next(gate, GateResult::Pass, &config) {
            PipelineStep::RunGate { gate: next, timeout_secs } => {
                seen.push((next, timeout_secs));
                gate = next;
            }
            PipelineStep::Finished(result) => {
                assert!(result.is_pass());
                break;
            }
        }
    }
    assert_eq!(
        seen,
        vec![(GateName::Compile, 120), (GateName::Clippy, 60), (GateName::Audit, 30), (GateName::Test, 120)]
    );
}

#[test]
fn pipeline_stops_at_first_failure() {
    let config = ForgeConfig::default();
    let failure = GateResult::Fail(GateError::new(GateName::Clippy, "Clippy warnings found".to_string()));
    match pipeline_next(GateName::Clippy, failure, &config) {
        PipelineStep::Finished(GateResult::Fail(e)) => {
            assert_eq!(e.gate, GateName::Clippy);
            assert_eq!(e.message, "Clippy warnings found");
        }
        other => panic!("expected the failure to end the pipeline, got {other:?}"),
    }
}

#[test]
fn a_pass_is_published_with_255_retries() {
    let mut attempts = ForgeAttempts::new(u8::MAX);
    let failure = GateResult::Fail(GateError::new(GateName::Compile, "Compilation failed".to_string()));
    assert!(matches!(attempts.on_gate_result(&failure), ForgeDecision::RunAgain { .. }));
    assert!(matches!(attempts.on_gate_result(&GateResult::Pass), ForgeDecision::Publish));
    assert_eq!(attempts.attempts, 256);
}
