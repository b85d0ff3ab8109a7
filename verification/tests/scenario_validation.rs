use mcp_probe::json::JsonValue;
use mcp_probe::scenario::{
    resolve_scenario_timing, resolve_step_key, uses_snapshots, validate_scenario,
    ScenarioExpectError, ScenarioSnapshot, ScriptScenario, ScriptStep,
};
use mcp_probe::transport::TransportType;

fn scenario_with_step(step: ScriptStep) -> ScriptScenario {
    ScriptScenario {
        name: None,
        description: None,
        transport: TransportType::Stdio,
        command: Some("example-mcp".to_string()),
        args: None,
        cwd: None,
        env: None,
        url: None,
        headers: None,
        timeout_ms: None,
        retries: None,
        retry_delay_ms: None,
        log_level: None,
        log_format: None,
        use_auth: None,
        access_token: None,
        access_token_path: None,
        refresh_token: None,
        refresh_token_path: None,
        client_id: None,
        client_secret: None,
        token_endpoint: None,
        scope: None,
        steps: vec![step],
        snapshot_path: None,
        ignore_paths: None,
    }
}

fn step() -> ScriptStep {
    ScriptStep {
        id: Some("status".to_string()),
        name: None,
        tool: "status.get".to_string(),
        input: None,
        expect: None,
        expect_error: None,
        snapshot: None,
        ignore_paths: None,
    }
}

#[test]
fn rejects_unasserted_steps_before_connecting() {
    let error = validate_scenario(&scenario_with_step(step()))
        .expect_err("unasserted scripted step must fail closed");

    let detail = error.to_string();
    assert!(detail.contains("Scenario step \"status\""));
    assert!(detail.contains("must include expect"));
    assert!(detail.contains("probe_call_tool"));
}

#[test]
fn false_expect_error_and_snapshot_flags_are_not_assertions() {
    let mut expect_error_false = step();
    expect_error_false.expect_error = Some(ScenarioExpectError::Bool(false));
    assert!(validate_scenario(&scenario_with_step(expect_error_false)).is_err());

    let mut snapshot_false = step();
    snapshot_false.snapshot = Some(ScenarioSnapshot::Bool(false));
    assert!(validate_scenario(&scenario_with_step(snapshot_false)).is_err());
}

#[test]
fn accepts_explicit_value_error_and_snapshot_assertions() {
    let mut expected_value = step();
    expected_value.expect = Some(JsonValue::Object(vec![(
        "ok".to_string(),
        JsonValue::Bool(true),
    )]));
    assert!(validate_scenario(&scenario_with_step(expected_value)).is_ok());

    let mut expected_error = step();
    expected_error.expect_error = Some(ScenarioExpectError::Bool(true));
    assert!(validate_scenario(&scenario_with_step(expected_error)).is_ok());

    let mut expected_snapshot = step();
    expected_snapshot.snapshot = Some(ScenarioSnapshot::Bool(true));
    assert!(validate_scenario(&scenario_with_step(expected_snapshot)).is_ok());
}

#[test]
fn empty_scenario_is_rejected() {
    let mut scenario = scenario_with_step(step());
    scenario.steps.clear();
    assert_eq!(
        validate_scenario(&scenario).unwrap_err(),
        "Scenario must include at least one step."
    );
}

#[test]
fn missing_command_and_url_are_rejected() {
    let mut asserted = step();
    asserted.expect_error = Some(ScenarioExpectError::String("boom".to_string()));
    let mut scenario = scenario_with_step(asserted);
    scenario.command = None;
    assert_eq!(
        validate_scenario(&scenario).unwrap_err(),
        "Scenario missing command for stdio transport."
    );
    scenario.transport = TransportType::StreamableHttp;
    assert_eq!(
        validate_scenario(&scenario).unwrap_err(),
        "Scenario missing URL for HTTP transport."
    );
    scenario.url = Some("http://127.0.0.1:9526/mcp".to_string());
    assert!(validate_scenario(&scenario).is_ok());
}

#[test]
fn step_key_falls_back_to_tool_and_position() {
    let mut s = step();
    assert_eq!(resolve_step_key(&s, 4), "status");
    s.id = None;
    s.name = Some("named".to_string());
    assert_eq!(resolve_step_key(&s, 4), "named");
    s.name = None;
    assert_eq!(resolve_step_key(&s, 4), "status.get-5");
}

#[test]
fn unasserted_step_message_names_the_fallback_key() {
    let mut s = step();
    s.id = None;
    let error = validate_scenario(&scenario_with_step(s)).unwrap_err();
    assert!(error.starts_with("Scenario step \"status.get-1\" must include expect"));
}

#[test]
fn timing_defaults_fill_missing_values() {
    assert_eq!(resolve_scenario_timing(None, None, None), (10_000, 0, 250));
    assert_eq!(resolve_scenario_timing(Some(5), Some(2), Some(9)), (5, 2, 9));
}

#[test]
fn snapshot_usage_is_detected() {
    let mut s = step();
    assert!(!uses_snapshots(&scenario_with_step(step())));
    s.snapshot = Some(ScenarioSnapshot::Bool(false));
    assert!(uses_snapshots(&scenario_with_step(s)));
}
