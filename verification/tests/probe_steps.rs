use mcp_probe::cli::{auth_header_target, effective_verbosity, target_auth_plan, TargetAuth};
use mcp_probe::report::ReportVerbosity;
use mcp_probe::json::JsonValue;
use mcp_probe::probe::errors::ErrorDetails;
use mcp_probe::probe::{
    availability_step, http_get_step, outcome_step, request_step, smoke_auth, stdio_step, ProbeTarget,
    StdioSnapshot,
};
use mcp_probe::report::{steps_ok, AuthDiscovery, ProbeStep, ProbeStepStatus};
use mcp_probe::transport::TransportType;

fn step(status: ProbeStepStatus) -> ProbeStep {
    ProbeStep { name: "s".to_string(), status, detail: None, data: None }
}

fn target(transport_type: TransportType, url: Option<&str>) -> ProbeTarget {
    ProbeTarget {
        transport_type,
        command: None,
        args: None,
        cwd: None,
        env: None,
        url: url.map(|u| u.to_string()),
        headers: None,
        timeout_ms: None,
        retries: None,
        retry_delay_ms: None,
        expect_auth_required: None,
        log_level: None,
        log_format: None,
        trace: None,
        trace_limit: None,
        trace_max_bytes: None,
        descriptor_profile: None,
        catalog_profile: None,
        catalog_contract: None,
    }
}

#[test]
fn report_ok_needs_every_step() {
    assert!(steps_ok(&[]));
    assert!(steps_ok(&[step(ProbeStepStatus::Passed), step(ProbeStepStatus::Passed)]));
    assert!(!steps_ok(&[step(ProbeStepStatus::Passed), step(ProbeStepStatus::Error)]));
}

#[test]
fn http_get_step_classifies_status() {
    let s = http_get_step(200, "200 OK", None);
    assert_eq!(s.name, "http.get");
    assert_eq!(s.status, ProbeStepStatus::Passed);
    assert_eq!(s.detail.as_deref(), Some("HTTP 200 OK"));
    assert_eq!(http_get_step(401, "401 Unauthorized", None).status, ProbeStepStatus::Passed);
    assert_eq!(http_get_step(403, "403 Forbidden", None).status, ProbeStepStatus::Passed);
    assert_eq!(http_get_step(404, "404 Not Found", None).status, ProbeStepStatus::Error);
    let stateful = http_get_step(400, "400 Bad Request", Some(JsonValue::Null));
    assert_eq!(stateful.status, ProbeStepStatus::Passed);
    assert_eq!(
        stateful.detail.as_deref(),
        Some("HTTP 400 Bad Request (stateful MCP endpoint requires session initialization)")
    );
    assert!(stateful.data.is_some());
}

#[test]
fn smoke_auth_keeps_only_findings() {
    let empty = AuthDiscovery {
        resource_metadata_url: None,
        resource_metadata: None,
        authorization_server: None,
        oauth_metadata_url: None,
        oauth_metadata: None,
        registration_endpoint: Some("x".to_string()),
    };
    assert!(smoke_auth(Some(empty)).is_none());
    let found = AuthDiscovery {
        resource_metadata_url: None,
        resource_metadata: None,
        authorization_server: Some("https://as".to_string()),
        oauth_metadata_url: None,
        oauth_metadata: None,
        registration_endpoint: None,
    };
    assert!(smoke_auth(Some(found)).is_some());
    assert!(smoke_auth(None).is_none());
}

#[test]
fn request_step_checks_expectations() {
    let ok = request_step("request:ping", false, None, None);
    assert_eq!(ok.status, ProbeStepStatus::Passed);
    let unexpected = request_step("request:ping", true, None, None);
    assert_eq!(unexpected.status, ProbeStepStatus::Error);
    assert_eq!(
        unexpected.detail.as_deref(),
        Some("Expected request to fail but it succeeded.")
    );
    let err = ErrorDetails { message: "Method not found: foo".to_string(), data: None };
    assert_eq!(request_step("r", true, Some("not found"), Some(&err)).status, ProbeStepStatus::Passed);
    assert_eq!(request_step("r", true, Some("denied"), Some(&err)).status, ProbeStepStatus::Error);
    assert_eq!(request_step("r", true, None, Some(&err)).status, ProbeStepStatus::Passed);
    let failed = request_step("r", false, None, Some(&err));
    assert_eq!(failed.status, ProbeStepStatus::Error);
    assert_eq!(failed.detail.as_deref(), Some("Method not found: foo"));
}

#[test]
fn availability_and_auth_target() {
    assert_eq!(availability_step("server.info", true).detail, None);
    assert_eq!(
        availability_step("capabilities", false).detail.as_deref(),
        Some("not available")
    );
    assert_eq!(
        auth_header_target(&target(TransportType::Stdio, None)).unwrap_err(),
        "use-auth is only supported for HTTP transports."
    );
    assert_eq!(
        auth_header_target(&target(TransportType::Sse, None)).unwrap_err(),
        "Missing target URL for auth header injection."
    );
    assert_eq!(
        auth_header_target(&target(TransportType::StreamableHttp, Some("https://x/mcp"))).unwrap(),
        "https://x/mcp"
    );
}

#[test]
fn target_auth_plan_checks_sources() {
    let http = target(TransportType::StreamableHttp, Some("https://x/mcp"));
    assert_eq!(
        target_auth_plan(&http, true, Some("/t")).err().unwrap(),
        "Specify only one auth source: use-auth or access-token-path."
    );
    assert_eq!(
        target_auth_plan(&target(TransportType::Stdio, None), false, Some("/t")).err().unwrap(),
        "access-token-path is only supported for HTTP transports."
    );
    assert_eq!(
        target_auth_plan(&target(TransportType::Sse, None), false, Some("/t")).err().unwrap(),
        "Missing target URL for access-token-path."
    );
    assert!(matches!(target_auth_plan(&http, false, Some("/t")), Ok(TargetAuth::ReadToken(p)) if p == "/t"));
    assert!(matches!(target_auth_plan(&http, true, None), Ok(TargetAuth::UseCache(u)) if u == "https://x/mcp"));
    assert!(matches!(target_auth_plan(&http, false, None), Ok(TargetAuth::NoAuth)));
    assert!(matches!(effective_verbosity(None, true), Some(ReportVerbosity::Full)));
    assert!(effective_verbosity(None, false).is_none());
    assert!(matches!(
        effective_verbosity(Some(ReportVerbosity::Summary), true),
        Some(ReportVerbosity::Summary)
    ));
}

#[test]
fn stdio_and_outcome_steps() {
    assert!(stdio_step(&StdioSnapshot { lines: vec![], exit_code: None, signal: None }).is_none());
    let s = stdio_step(&StdioSnapshot { lines: vec!["boom".to_string()], exit_code: Some(-1), signal: None }).unwrap();
    assert_eq!(s.name, "stdio.stderr");
    assert_eq!(s.data.unwrap().to_json_text(), "{\"exit_code\":-1,\"lines\":[\"boom\"]}");
    let ok = outcome_step("ping", Ok(Some(JsonValue::Object(vec![]))));
    assert_eq!(ok.status, ProbeStepStatus::Passed);
    let err = ErrorDetails { message: "timed out".to_string(), data: None };
    let failed = outcome_step("ping", Err(&err));
    assert_eq!(failed.status, ProbeStepStatus::Error);
    assert_eq!(failed.detail.as_deref(), Some("timed out"));
}
