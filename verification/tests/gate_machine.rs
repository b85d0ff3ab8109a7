use mcp_probe::probe::errors::ErrorDetails;
use mcp_probe::probe::gate::{gate_start, gate_step, ConnectFailure, GateAction, GateEvent};
use mcp_probe::report::ProbeStepStatus;
use mcp_probe::transport::TransportType;

#[test]
fn gates_refuse_stdio_unless_enabled() {
    let (state, action) = gate_start(TransportType::Stdio, None, None, false, false, None, true);
    assert!(matches!(action, GateAction::Finish { ok: false, report_auth: false }));
    assert_eq!(state.steps.len(), 1);
    assert_eq!(state.steps[0].name, "stdio.allowlist");
    assert_eq!(state.steps[0].status, ProbeStepStatus::Error);
}

#[test]
fn gates_run_discovery_then_connect() {
    let (state, action) =
        gate_start(TransportType::StreamableHttp, Some("http://localhost:3000/mcp"), None, false, false, Some(true), true);
    assert!(matches!(action, GateAction::Discover));
    assert_eq!(state.steps.last().map(|s| s.name.as_str()), Some("host.allowlist"));
    let (state, action) = gate_step(state, GateEvent::Discovered { steps: vec![], auth: None });
    assert!(matches!(action, GateAction::Connect));
    let expectation = state.steps.last().expect("expectation step");
    assert_eq!(expectation.name, "expect.auth_required");
    assert_eq!(expectation.status, ProbeStepStatus::Error);
    let failure = ConnectFailure { details: ErrorDetails { message: "HTTP 401".to_string(), data: None }, stdio: None };
    let (state, action) = gate_step(state, GateEvent::Connected(Err(failure)));
    assert!(matches!(action, GateAction::Finish { ok: false, report_auth: false }));
    assert_eq!(state.steps.last().map(|s| s.name.as_str()), Some("connect"));
}

#[test]
fn gates_proceed_once_connected() {
    let (state, _) = gate_start(TransportType::StreamableHttp, Some("http://localhost:3000/mcp"), None, false, false, None, false);
    let (state, _) = gate_step(state, GateEvent::Discovered { steps: vec![], auth: None });
    let (state, action) = gate_step(state, GateEvent::Connected(Ok(())));
    assert!(matches!(action, GateAction::Proceed));
    assert_eq!(state.steps.last().map(|s| s.status), Some(ProbeStepStatus::Passed));
    let (_, action) = gate_step(state, GateEvent::Connected(Ok(())));
    assert!(matches!(action, GateAction::Finish { ok: false, report_auth: false }));
}
