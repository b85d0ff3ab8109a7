use mcp_probe::json::JsonValue;
use mcp_probe::probe::discovery::{
    discovery_start, discovery_step, DiscoveryAction, DiscoveryEvent, FetchFailure, FetchedReply,
};
use mcp_probe::report::ProbeStepStatus;
use mcp_probe::transport::TransportType;

fn reply(status: u16, text: &str, header: Option<&str>, json: Option<JsonValue>) -> DiscoveryEvent {
    DiscoveryEvent::Reply(FetchedReply {
        status,
        status_text: text.to_string(),
        www_authenticate: header.map(str::to_string),
        content_type: Some("application/json".to_string()),
        body: b"{}".to_vec(),
        json: match json {
            Some(v) => Ok(v),
            None => Err("expected value".to_string()),
        },
    })
}

fn object(members: Vec<(&str, JsonValue)>) -> JsonValue {
    JsonValue::Object(members.into_iter().map(|(k, v)| (k.to_string(), v)).collect())
}

fn get_url(action: &DiscoveryAction) -> String {
    match action {
        DiscoveryAction::Get(u) => u.clone(),
        DiscoveryAction::Finish(_) => panic!("expected a request"),
    }
}

#[test]
fn discovery_on_stdio_is_not_applicable() {
    let (_, steps, action) = discovery_start(TransportType::Stdio, None, None);
    assert!(matches!(action, DiscoveryAction::Finish(false)));
    assert_eq!(steps.len(), 1);
    assert_eq!(steps[0].name, "auth.prm");
    assert_eq!(steps[0].detail.as_deref(), Some("not applicable"));
}

#[test]
fn discovery_without_challenge_needs_no_auth() {
    let (state, _, action) = discovery_start(TransportType::StreamableHttp, Some("https://mcp.example.com/mcp"), None);
    assert_eq!(get_url(&action), "https://mcp.example.com/mcp");
    let (_, steps, action) = discovery_step(state, reply(200, "200 OK", None, None));
    assert!(matches!(action, DiscoveryAction::Finish(true)));
    assert_eq!(steps[0].status, ProbeStepStatus::Passed);
    assert_eq!(steps[0].detail.as_deref(), Some("no auth required"));
}

#[test]
fn discovery_reports_an_unexpected_status() {
    let (state, _, _) = discovery_start(TransportType::StreamableHttp, Some("https://mcp.example.com/mcp"), None);
    let (_, steps, _) = discovery_step(state, reply(500, "500 Internal Server Error", None, None));
    assert_eq!(steps[0].status, ProbeStepStatus::Error);
    assert_eq!(steps[0].detail.as_deref(), Some("Unexpected status 500 Internal Server Error"));
}

#[test]
fn discovery_refuses_hosts_outside_the_allowlist() {
    let hosts = Some(vec!["other.example.com".to_string()]);
    let (_, steps, action) = discovery_start(TransportType::StreamableHttp, Some("https://mcp.example.com/mcp"), hosts);
    assert!(matches!(action, DiscoveryAction::Finish(false)));
    assert_eq!(steps[0].detail.as_deref(), Some("Target host is not in the allowlist"));
}

#[test]
fn discovery_follows_the_challenge_to_the_oauth_metadata() {
    let (state, _, _) = discovery_start(TransportType::StreamableHttp, Some("https://mcp.example.com/mcp"), None);
    let challenge = "Bearer resource_metadata=\"https://mcp.example.com/.well-known/oauth-protected-resource\"";
    let (state, steps, action) = discovery_step(state, reply(401, "401 Unauthorized", Some(challenge), None));
    assert_eq!(steps[0].status, ProbeStepStatus::Passed);
    assert_eq!(get_url(&action), "https://mcp.example.com/.well-known/oauth-protected-resource");

    let prm = object(vec![(
        "authorization_servers",
        JsonValue::Array(vec![JsonValue::Number("1".to_string()), JsonValue::String("https://auth.example.com".to_string())]),
    )]);
    let (state, steps, action) = discovery_step(state, reply(200, "200 OK", None, Some(prm)));
    assert_eq!(steps[0].name, "auth.prm.fetch");
    assert_eq!(get_url(&action), "https://auth.example.com/.well-known/openid-configuration");
    assert_eq!(state.auth.authorization_server.as_deref(), Some("https://auth.example.com"));

    let (state, steps, action) = discovery_step(state, DiscoveryEvent::Failed(FetchFailure {
        timed_out: false,
        connect_failed: true,
        request_error: None,
        error: "connection refused".to_string(),
    }));
    assert!(steps.is_empty());
    assert_eq!(get_url(&action), "https://auth.example.com/.well-known/oauth-authorization-server");

    let metadata = object(vec![
        ("issuer", JsonValue::String("https://auth.example.com/".to_string())),
        ("registration_endpoint", JsonValue::String(" https://auth.example.com/register ".to_string())),
    ]);
    let (state, steps, action) = discovery_step(state, reply(200, "200 OK", None, Some(metadata)));
    assert!(matches!(action, DiscoveryAction::Finish(true)));
    assert_eq!(steps[0].name, "auth.oauth.fetch");
    assert_eq!(steps[0].status, ProbeStepStatus::Passed);
    assert_eq!(steps[1].name, "auth.oauth.issuer");
    assert_eq!(steps[1].status, ProbeStepStatus::Passed);
    assert_eq!(state.auth.registration_endpoint.as_deref(), Some("https://auth.example.com/register"));
    assert_eq!(
        state.auth.oauth_metadata_url.as_deref(),
        Some("https://auth.example.com/.well-known/oauth-authorization-server")
    );
}

#[test]
fn discovery_without_resource_metadata_in_the_challenge_fails() {
    let (state, _, _) = discovery_start(TransportType::StreamableHttp, Some("https://mcp.example.com/mcp"), None);
    let (_, steps, action) = discovery_step(state, reply(401, "401 Unauthorized", Some("Bearer"), None));
    assert!(matches!(action, DiscoveryAction::Finish(true)));
    assert_eq!(steps[0].detail.as_deref(), Some("Missing resource_metadata in WWW-Authenticate header"));
    assert_eq!(steps[0].data.as_ref().and_then(|d| d.get("code")).and_then(|c| c.as_str()), Some("resource_metadata_missing"));
}
