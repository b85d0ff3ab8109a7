use mcp_probe::json::JsonValue;
use mcp_probe::probe::errors::ErrorDetails;
use mcp_probe::probe::run::{
    handshake_start, handshake_step, probe_run_start, probe_run_step, HandshakeAction, HandshakeEvent, ProbeAction,
    ProbeEvent, ProbeListing,
};
use mcp_probe::probe::StdioSnapshot;
use mcp_probe::report::{CatalogContract, CatalogProfile, ProbeStepStatus};
use mcp_probe::transport::TransportType;

fn tools_doc() -> JsonValue {
    JsonValue::Object(vec![("tools".to_string(), JsonValue::Array(vec![]))])
}

#[test]
fn probe_run_lists_only_what_the_server_advertises() {
    let (state, steps, action) =
        probe_run_start(TransportType::Stdio, false, true, None, None, None, true, false);
    assert!(matches!(action, ProbeAction::List(ProbeListing::Tools)));
    assert_eq!(steps[0].name, "server.info");
    assert_eq!(steps[1].detail.as_deref(), Some("not available"));

    let (state, steps, action) = probe_run_step(state, ProbeEvent::Listed(Ok((1, vec![], Some(tools_doc())))));
    let names: Vec<&str> = steps.iter().map(|s| s.name.as_str()).collect();
    assert_eq!(
        names,
        vec!["tools.list", "tools.schema_compatibility", "resources.list", "resources.templates.list"]
    );
    assert_eq!(steps[2].detail.as_deref(), Some("not supported"));
    assert!(matches!(action, ProbeAction::List(ProbeListing::Prompts)));
    assert_eq!(state.methods.len(), 3);

    let err = ErrorDetails { message: "boom".to_string(), data: None };
    let (state, steps, action) = probe_run_step(state, ProbeEvent::Listed(Err(err)));
    assert_eq!(steps.len(), 1);
    assert_eq!(steps[0].name, "prompts.list");
    assert_eq!(steps[0].status, ProbeStepStatus::Error);
    assert!(matches!(action, ProbeAction::Disconnect));

    let (state, steps, action) =
        probe_run_step(state, ProbeEvent::Disconnected { result: Ok(()), stdio: None });
    assert_eq!(steps.len(), 1);
    assert_eq!(steps[0].name, "disconnect");
    assert!(matches!(action, ProbeAction::Finish));
    assert!(state.tools.is_some());
    assert!(state.prompts.is_none());
}

#[test]
fn probe_run_ends_with_the_profile_and_contract_verdicts() {
    let contract = CatalogContract {
        schema_version: 1,
        required_tools: vec!["missing_tool".to_string()],
        ..Default::default()
    };
    let (state, _, _) = probe_run_start(
        TransportType::StreamableHttp,
        false,
        false,
        Some(CatalogProfile::RawMcp),
        None,
        Some(contract),
        true,
        true,
    );
    let (state, steps, action) = probe_run_step(state, ProbeEvent::Listed(Ok((1, vec![], Some(tools_doc())))));
    assert_eq!(steps.len(), 5);
    assert_eq!(steps[4].name, "prompts.list");
    assert!(matches!(action, ProbeAction::Disconnect));
    let (state, steps, _) =
        probe_run_step(state, ProbeEvent::Disconnected { result: Err("closed".to_string()), stdio: None });
    let names: Vec<&str> = steps.iter().map(|s| s.name.as_str()).collect();
    assert_eq!(names, vec!["disconnect", "catalog.profile", "catalog.contract"]);
    assert_eq!(steps[0].detail.as_deref(), Some("closed"));
    assert_eq!(steps[2].status, ProbeStepStatus::Error);
    let verdict = state.contract_verdict.expect("contract verdict");
    assert!(verdict.findings.iter().any(|f| f.contains("missing_tool")));
    assert!(state.profile_verdict.is_some());
}

#[test]
fn handshake_pings_lists_tools_and_closes() {
    let (state, steps, action) = handshake_start(TransportType::Stdio, None, None, true, true);
    assert_eq!(steps.len(), 2);
    assert!(matches!(action, HandshakeAction::Ping));
    let err = ErrorDetails { message: "no pong".to_string(), data: None };
    let (state, steps, action) = handshake_step(state, HandshakeEvent::Pinged(Err(err)));
    assert_eq!(steps[0].name, "ping");
    assert_eq!(steps[0].status, ProbeStepStatus::Error);
    assert_eq!(steps[0].detail.as_deref(), Some("no pong"));
    assert!(matches!(action, HandshakeAction::ListTools));
    let (state, steps, action) =
        handshake_step(state, HandshakeEvent::Listed(Ok((2, vec!["a".to_string()], Some(tools_doc())))));
    assert_eq!(steps[0].name, "tools.list");
    assert_eq!(steps[0].detail.as_deref(), Some("discovered 1 tools across 2 page(s)"));
    assert_eq!(steps[1].name, "tools.schema_compatibility");
    assert!(matches!(action, HandshakeAction::Close));
    let snapshot = StdioSnapshot { lines: vec!["boot".to_string()], exit_code: None, signal: None };
    let (state, steps, action) = handshake_step(state, HandshakeEvent::Closed { stdio: Some(snapshot) });
    assert_eq!(steps.len(), 1);
    assert_eq!(steps[0].name, "stdio.stderr");
    assert!(matches!(action, HandshakeAction::Finish));
    assert!(state.tools.is_some());
}
