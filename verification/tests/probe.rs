use mcp_probe::json::JsonValue;
use mcp_probe::probe::errors::{error_data, ErrorDetails};
use mcp_probe::probe::options::{resolve_probe_options, DEFAULT_RETRY_DELAY_MS, DEFAULT_TIMEOUT_MS};
use mcp_probe::probe::{
    apply_expect_registration_endpoint, build_prompt_render_params, build_resource_uri_params,
    is_expected_auth_required_connect_error, map_error_step, map_expected_auth_required_connect_step,
    resolve_expect_error, ExpectError,
};
use mcp_probe::report::{AuthDiscovery, ProbeStep, ProbeStepStatus};
use serde_json::Value;

fn to_json(v: &Value) -> JsonValue {
    match v {
        Value::Null => JsonValue::Null,
        Value::Bool(b) => JsonValue::Bool(*b),
        Value::Number(n) => JsonValue::Number(n.to_string()),
        Value::String(s) => JsonValue::String(s.clone()),
        Value::Array(items) => JsonValue::Array(items.iter().map(to_json).collect()),
        Value::Object(map) => {
            JsonValue::Object(map.iter().map(|(k, v)| (k.clone(), to_json(v))).collect())
        }
    }
}

fn from_json(v: &JsonValue) -> Value {
    match v {
        JsonValue::Null => Value::Null,
        JsonValue::Bool(b) => Value::Bool(*b),
        JsonValue::Number(n) => serde_json::from_str(n).expect("number text"),
        JsonValue::String(s) => Value::String(s.clone()),
        JsonValue::Array(items) => Value::Array(items.iter().map(from_json).collect()),
        JsonValue::Object(entries) => {
            let mut map = serde_json::Map::new();
            for (k, v) in entries {
                map.insert(k.clone(), from_json(v));
            }
            Value::Object(map)
        }
    }
}

fn json(text: &str) -> Value {
    serde_json::from_str(text).expect("test JSON")
}

fn ok_step(name: &str) -> ProbeStep {
    ProbeStep { name: name.to_string(), status: ProbeStepStatus::Passed, detail: None, data: None }
}

fn discovery(resource_metadata_url: Option<&str>, authorization_server: Option<&str>) -> AuthDiscovery {
    AuthDiscovery {
        resource_metadata_url: resource_metadata_url.map(str::to_string),
        resource_metadata: None,
        authorization_server: authorization_server.map(str::to_string),
        oauth_metadata_url: None,
        oauth_metadata: None,
        registration_endpoint: None,
    }
}

#[test]
fn expected_auth_required_connect_error_is_detected() {
    let steps = vec![ok_step("auth.prm"), ok_step("expect.auth_required")];
    let auth = discovery(Some("https://example.test/.well-known/oauth-protected-resource"), None);

    assert!(is_expected_auth_required_connect_error(
        &steps,
        Some(&auth),
        "Error POSTing to endpoint: {\"code\":\"auth.missing_token\"}",
        Some(true),
    ));
}

#[test]
fn expected_auth_required_connect_error_detects_rmcp_initialize_message() {
    let steps = vec![
        ok_step("auth.prm"),
        ok_step("auth.prm.fetch"),
        ok_step("auth.oauth.fetch"),
        ok_step("expect.auth_required"),
    ];
    let auth = discovery(
        Some("https://example.test/.well-known/oauth-protected-resource"),
        Some("https://auth.example.test/realms/example/"),
    );

    assert!(is_expected_auth_required_connect_error(
        &steps,
        Some(&auth),
        &[
            "Send message error Transport ",
            "[rmcp::transport::worker::WorkerTransport<",
            "rmcp::transport::streamable_http_client::StreamableHttpClientWorker<",
            "reqwest::async_impl::client::Client>>] error: Auth required, ",
            "when send initialize request",
        ]
        .concat(),
        Some(true),
    ));
}

#[test]
fn expected_auth_required_connect_error_requires_expectation() {
    let steps = vec![ok_step("auth.prm"), ok_step("expect.auth_required")];
    let auth = discovery(Some("https://example.test/.well-known/oauth-protected-resource"), None);

    assert!(!is_expected_auth_required_connect_error(&steps, Some(&auth), "auth.missing_token", None));
}

#[test]
fn expected_auth_required_needs_discovery_and_auth_message() {
    let steps = vec![ok_step("expect.auth_required")];
    let auth = discovery(Some("https://example.test/prm"), None);
    assert!(!is_expected_auth_required_connect_error(&steps, Some(&auth), "connection refused", Some(true)));
    assert!(!is_expected_auth_required_connect_error(&steps, None, "401 Unauthorized", Some(true)));
    let empty = discovery(None, None);
    assert!(!is_expected_auth_required_connect_error(&steps, Some(&empty), "401", Some(true)));
    let failed = vec![ProbeStep {
        name: "expect.auth_required".to_string(),
        status: ProbeStepStatus::Error,
        detail: None,
        data: None,
    }];
    assert!(!is_expected_auth_required_connect_error(&failed, Some(&auth), "401", Some(true)));
    assert!(is_expected_auth_required_connect_error(&steps, Some(&auth), "HTTP 401 UNAUTHORIZED", Some(true)));
}

#[test]
fn expected_auth_required_connect_step_is_machine_readable() {
    let details = ErrorDetails { message: "auth.missing_token: Missing bearer token.".to_string(), data: None };
    let step = map_expected_auth_required_connect_step(&details, None, None);

    assert_eq!(step.name, "connect.auth_required");
    assert_eq!(step.status, ProbeStepStatus::Passed);
    assert!(step.detail.as_deref().unwrap_or_default().contains("Auth challenge detected as expected"));
    let data = from_json(&step.data.expect("machine-readable data"));
    assert_eq!(data["expected_auth_required"], Value::Bool(true));
    let connect_error = data["connect_error"].as_str().expect("connect_error string");
    assert!(connect_error.contains("auth.missing_token"));
}

#[test]
fn prompt_render_params_include_name_and_arguments() {
    let params = build_prompt_render_params(
        "summarize_case",
        Some(vec![("case_id".to_string(), JsonValue::String("C123".to_string()))]),
    );

    assert_eq!(from_json(&params), json(r#"{"name": "summarize_case", "arguments": {"case_id": "C123"}}"#));
}

#[test]
fn prompt_render_arguments_are_sorted_and_later_wins() {
    let params = build_prompt_render_params(
        "p",
        Some(vec![
            ("b".to_string(), JsonValue::Bool(true)),
            ("a".to_string(), JsonValue::Number("1".to_string())),
            ("b".to_string(), JsonValue::Null),
        ]),
    );
    assert_eq!(params.to_json_text(), r#"{"arguments":{"a":1,"b":null},"name":"p"}"#);
    assert_eq!(build_prompt_render_params("p", None).to_json_text(), r#"{"name":"p"}"#);
}

#[test]
fn resource_uri_params_include_uri() {
    let params = build_resource_uri_params("mcp-probe://status");

    assert_eq!(from_json(&params), json(r#"{"uri": "mcp-probe://status"}"#));
}

#[test]
fn registration_endpoint_expectation_steps() {
    let mut steps = Vec::new();
    let mut auth = discovery(None, None);
    apply_expect_registration_endpoint(&mut steps, Some(&auth), Some(true));
    assert_eq!(steps[0].name, "auth.oauth.registration");
    assert_eq!(steps[0].status, ProbeStepStatus::Error);
    assert_eq!(steps[0].detail.as_deref(), Some("Missing registration_endpoint in OAuth metadata"));
    assert!(steps[0].data.is_none());
    apply_expect_registration_endpoint(&mut steps, None, None);
    assert_eq!(steps[1].status, ProbeStepStatus::Passed);
    assert_eq!(steps[1].detail.as_deref(), Some("registration_endpoint not advertised"));
    auth.registration_endpoint = Some("https://issuer.example/register".to_string());
    apply_expect_registration_endpoint(&mut steps, Some(&auth), Some(true));
    assert_eq!(steps[2].status, ProbeStepStatus::Passed);
    assert_eq!(steps[2].detail.as_deref(), Some("registration_endpoint advertised"));
    assert_eq!(
        from_json(steps[2].data.as_ref().unwrap()),
        json(r#"{"registration_endpoint": "https://issuer.example/register"}"#)
    );
    auth.registration_endpoint = Some("   ".to_string());
    apply_expect_registration_endpoint(&mut steps, Some(&auth), Some(true));
    assert_eq!(steps[3].status, ProbeStepStatus::Error);
    assert!(steps[3].data.is_some());
}

#[test]
fn error_step_merges_error_data_with_captures() {
    let details = ErrorDetails {
        message: "boom".to_string(),
        data: Some(to_json(&json(r#"{"raw": "Boom", "cause": "io"}"#))),
    };
    let step = map_error_step("connect", &details, Some(JsonValue::Null), None);
    assert_eq!(step.status, ProbeStepStatus::Error);
    assert_eq!(step.detail.as_deref(), Some("boom"));
    assert_eq!(step.data.as_ref().unwrap().to_json_text(), r#"{"cause":"io","raw":"Boom","stdio":null}"#);

    let scalar = ErrorDetails { message: "x".to_string(), data: Some(JsonValue::String("e".to_string())) };
    let step = map_error_step("list", &scalar, None, Some(JsonValue::Bool(false)));
    assert_eq!(step.data.as_ref().unwrap().to_json_text(), r#"{"error":"e","trace":false}"#);

    let bare = ErrorDetails { message: "y".to_string(), data: None };
    assert!(map_error_step("list", &bare, None, None).data.is_none());
    assert!(error_data(&bare).is_none());
}

#[test]
fn probe_options_take_defaults() {
    let options = resolve_probe_options(None, Some(3), None);
    assert_eq!(options.timeout_ms, DEFAULT_TIMEOUT_MS);
    assert_eq!(options.timeout_ms, 10_000);
    assert_eq!(options.retries, 3);
    assert_eq!(options.retry_delay_ms, DEFAULT_RETRY_DELAY_MS);
    let options = resolve_probe_options(Some(5), None, Some(7));
    assert_eq!((options.timeout_ms, options.retries, options.retry_delay_ms), (5, 0, 7));
}

#[test]
fn expect_error_resolution() {
    assert_eq!(resolve_expect_error(&None), (false, None));
    assert_eq!(resolve_expect_error(&Some(ExpectError::Bool(true))), (true, None));
    assert_eq!(resolve_expect_error(&Some(ExpectError::Bool(false))), (false, None));
    assert_eq!(resolve_expect_error(&Some(ExpectError::String("missing".into()))), (true, Some("missing")));
}
