use mcp_probe::json::JsonValue;
use mcp_probe::probe::auth_diagnostics::{
    attach_prior_attempt, classify_request_error, classify_stateful_session_required_response,
    http_status_detail, invalid_json_detail, issuer_mismatch_detail, malformed_url_detail, normalize_issuer,
    normalize_path, validate_url,
};
use mcp_probe::probe::auth_discovery::{
    prm_alias_paths_for_resource, prm_alias_urls_for_target, registration_endpoint_from_metadata,
    validate_issuer_alignment,
};
use mcp_probe::report::ProbeStepStatus;
use serde_json::Value;

fn to_json(v: &Value) -> JsonValue {
    match v {
        Value::Null => JsonValue::Null,
        Value::Bool(b) => JsonValue::Bool(*b),
        Value::Number(n) => JsonValue::Number(n.to_string()),
        Value::String(s) => JsonValue::String(s.clone()),
        Value::Array(items) => JsonValue::Array(items.iter().map(to_json).collect()),
        Value::Object(map) => {
            JsonValue::Object(map.iter().map(|(k, v)| (k.clone(), to_json(v))).collect())
        }
    }
}

fn parse(text: &str) -> JsonValue {
    to_json(&serde_json::from_str::<Value>(text).expect("test JSON"))
}

#[test]
fn malformed_and_status_diagnostics() {
    let (detail, data) = malformed_url_detail("prm", "x", "bad");
    assert_eq!(detail, "Malformed prm URL");
    assert_eq!(data.to_json_text(), r#"{"code":"url_malformed","endpoint":"prm","error":"bad","url":"x"}"#);
    let (detail, data) = http_status_detail("prm", "u", 404);
    assert_eq!(detail, "prm returned HTTP 404");
    assert_eq!(data.to_json_text(), r#"{"code":"http_status","endpoint":"prm","status":404,"url":"u"}"#);
    assert!(validate_url("prm", "http://localhost/x").is_ok());
    let (detail, data) = validate_url("prm", "::").err().unwrap();
    assert_eq!(detail, "Malformed prm URL");
    assert!(data.to_json_text().contains("\"code\":\"url_malformed\""));
}

#[test]
fn request_errors_are_classified() {
    let (d, j) = classify_request_error("prm", "u", true, false, None, "elapsed");
    assert_eq!(d, "prm request timed out");
    assert_eq!(j.to_json_text(), r#"{"code":"network_timeout","endpoint":"prm","error":"elapsed","url":"u"}"#);
    let (d, _) = classify_request_error("prm", "u", false, true, None, "refused");
    assert_eq!(d, "prm endpoint is unreachable");
    let (d, _) = classify_request_error("prm", "u", false, false, Some("builder error: relative URL"), "e");
    assert_eq!(d, "Malformed prm URL");
    let (d, j) = classify_request_error("prm", "u", false, false, Some("builder error"), "e");
    assert_eq!(d, "Failed to request prm endpoint");
    assert!(j.to_json_text().contains("http_request_failed"));
}

#[test]
fn stateful_session_required_is_recognized() {
    let body = br#"{"error":"Missing session ID","hint":"Initialize with POST /mcp to obtain a session id."}"#;
    let payload = parse(std::str::from_utf8(body).unwrap());
    let (detail, data) = classify_stateful_session_required_response(
        "http.get",
        "http://127.0.0.1:1/mcp",
        400,
        Some("application/json"),
        body,
        Some(&payload),
    )
    .expect("classified");
    assert_eq!(detail, "http.get requires an initialized session before GET/DELETE requests");
    let v: Value = serde_json::from_str(&data.to_json_text()).unwrap();
    assert_eq!(v["classification"], "stateful_mcp_requires_session");
    assert_eq!(v["code"], "stateful_session_required");
    assert_eq!(v["status"], 400);
    assert_eq!(v["path"], "/mcp");
    assert_eq!(v["error"], "Missing session ID");
    assert_eq!(v["content_type"], "application/json");

    let text = b"Missing session ID. Initialize with POST /mcp to obtain a session id.\n";
    let (_, data) = classify_stateful_session_required_response("http.get", "http://127.0.0.1:1/mcp", 400, Some("text/plain"), text, None)
        .expect("plain text classified");
    let v: Value = serde_json::from_str(&data.to_json_text()).unwrap();
    assert_eq!(v["code"], "stateful_session_required");
    assert_eq!(v["hint"], "");
    assert_eq!(v["body_preview"], "Missing session ID. Initialize with POST /mcp to obtain a session id.");

    assert!(classify_stateful_session_required_response("e", "http://h/mcp", 404, None, text, None).is_none());
    assert!(classify_stateful_session_required_response("e", "http://h/mcp", 400, None, b"bad request", None).is_none());
}

#[test]
fn custom_mount_path_counts_as_init_hint() {
    let body = b"missing session id; POST /api/mcp first";
    let (_, data) = classify_stateful_session_required_response("e", "http://h/api/mcp", 400, None, body, None).unwrap();
    let v: Value = serde_json::from_str(&data.to_json_text()).unwrap();
    assert_eq!(v["path"], "/api/mcp");
    assert!(v.get("content_type").is_none());
}

#[test]
fn invalid_json_and_prior_attempt() {
    let (d, j) = invalid_json_detail("prm", "u", Some("text/plain"), "not json", "expected value");
    assert_eq!(d, "prm did not return valid JSON");
    assert_eq!(
        j.to_json_text(),
        r#"{"body_preview":"not json","code":"invalid_json","content_type":"text/plain","endpoint":"prm","error":"expected value","url":"u"}"#
    );
    let out = attach_prior_attempt(parse(r#"{"code":"x"}"#), "first".to_string(), parse(r#"{"a":1}"#));
    assert_eq!(out.to_json_text(), r#"{"code":"x","prior_attempt":{"data":{"a":1},"detail":"first"}}"#);
    let out = attach_prior_attempt(JsonValue::Null, "first".to_string(), JsonValue::Null);
    assert_eq!(out.to_json_text(), r#"{"prior_attempt":{"data":null,"detail":"first"}}"#);
}

#[test]
fn issuers_normalize_for_comparison() {
    assert_eq!(normalize_path(""), "/");
    assert_eq!(normalize_path("/a"), "/a/");
    assert_eq!(normalize_path("/a/"), "/a/");
    assert_eq!(
        normalize_issuer("https://auth.example.test/realms/example?x=1#f").as_deref(),
        Some("https://auth.example.test/realms/example/")
    );
    assert_eq!(normalize_issuer("https://Auth.Example.test").as_deref(), Some("https://auth.example.test/"));
    assert!(normalize_issuer("nope").is_none());
}

#[test]
fn issuer_mismatch_carries_origins() {
    let (detail, data) = issuer_mismatch_detail(
        "http://127.0.0.1:9526/mcp",
        "https://auth.example.test/a",
        "https://other.example.test/b",
        "https://auth.example.test/a/",
        "https://other.example.test/b/",
    );
    assert_eq!(detail, "OAuth issuer does not match PRM authorization server");
    let v: Value = serde_json::from_str(&data.to_json_text()).unwrap();
    assert_eq!(v["code"], "issuer_mismatch");
    assert_eq!(v["endpoint"], "oauth_metadata");
    assert_eq!(v["url"], "https://other.example.test/b");
    assert_eq!(v["configured_origin"], "http://127.0.0.1:9526");
    assert_eq!(v["configured_path"], "/mcp");
    assert_eq!(v["authorization_server_origin"], "https://auth.example.test");
    assert_eq!(v["oauth_issuer_origin"], "https://other.example.test");
}

#[test]
fn prm_aliases_for_resource_paths() {
    assert_eq!(prm_alias_paths_for_resource(" / "), vec!["/.well-known/oauth-protected-resource".to_string()]);
    assert_eq!(
        prm_alias_paths_for_resource("/api/mcp/"),
        vec![
            "/.well-known/oauth-protected-resource/api/mcp".to_string(),
            "/api/mcp/.well-known/oauth-protected-resource".to_string(),
            "/.well-known/oauth-protected-resource".to_string(),
        ]
    );
    assert_eq!(
        prm_alias_urls_for_target("http://127.0.0.1:9526/api/mcp?x=1").unwrap(),
        vec![
            "http://127.0.0.1:9526/.well-known/oauth-protected-resource/api/mcp".to_string(),
            "http://127.0.0.1:9526/api/mcp/.well-known/oauth-protected-resource".to_string(),
            "http://127.0.0.1:9526/.well-known/oauth-protected-resource".to_string(),
        ]
    );
    assert!(prm_alias_urls_for_target("not-a-url").is_none());
}

#[test]
fn registration_endpoint_and_issuer_alignment() {
    let meta = parse(r#"{"issuer":"https://auth.example.test/realms/x","registration_endpoint":" https://auth.example.test/reg "}"#);
    assert_eq!(registration_endpoint_from_metadata(Some(&meta)).as_deref(), Some("https://auth.example.test/reg"));
    assert!(registration_endpoint_from_metadata(Some(&parse(r#"{"registration_endpoint":"  "}"#))).is_none());
    assert!(registration_endpoint_from_metadata(None).is_none());

    let mut steps = Vec::new();
    validate_issuer_alignment("http://t/mcp", "https://auth.example.test/realms/x/", Some(&meta), &mut steps);
    assert_eq!(steps.len(), 1);
    assert_eq!(steps[0].status, ProbeStepStatus::Passed);
    assert_eq!(
        steps[0].data.as_ref().unwrap().to_json_text(),
        r#"{"code":"issuer_validated","discovered_issuer":"https://auth.example.test/realms/x/","expected_issuer":"https://auth.example.test/realms/x/","matched":true}"#
    );
    validate_issuer_alignment("http://t/mcp", "https://auth.example.test/other", Some(&meta), &mut steps);
    assert_eq!(steps[1].status, ProbeStepStatus::Error);
    assert_eq!(steps[1].detail.as_deref(), Some("OAuth issuer does not match PRM authorization server"));
    validate_issuer_alignment("http://t/mcp", "not a url", Some(&meta), &mut steps);
    assert_eq!(steps[2].detail.as_deref(), Some("Malformed authorization_server URL"));
    validate_issuer_alignment("http://t/mcp", "https://a/", Some(&parse(r#"{"issuer":"::"}"#)), &mut steps);
    assert_eq!(steps[3].detail.as_deref(), Some("Malformed oauth_issuer URL"));
    validate_issuer_alignment("http://t/mcp", "https://a/", Some(&parse(r#"{"issuer":" "}"#)), &mut steps);
    assert_eq!(steps.len(), 4);
}
