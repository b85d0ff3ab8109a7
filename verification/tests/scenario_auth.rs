use mcp_probe::auth::{RefreshTokenFile, RefreshTokenOptions};
use mcp_probe::scenario::auth::{
    attach_token_outcome, attach_token_result, plan_auth_headers, refresh_request, AuthHeaderResult,
    AuthPlan, ScenarioAuthInput,
};
use mcp_probe::transport::TransportType;

fn base(transport: TransportType) -> ScenarioAuthInput {
    ScenarioAuthInput {
        transport,
        url: Some("https://mcp.example/mcp".to_string()),
        headers: None,
        use_auth: None,
        access_token: None,
        access_token_path: None,
        refresh_token: None,
        refresh_token_path: None,
        client_id: None,
        client_secret: None,
        token_endpoint: None,
        scope: None,
        timeout_ms: None,
    }
}

fn failed(plan: AuthPlan) -> String {
    match plan {
        AuthPlan::Done(AuthHeaderResult::Failed(m)) => m,
        _ => panic!("expected a failure"),
    }
}

#[test]
fn scenario_auth_rejects_two_sources() {
    let mut s = base(TransportType::StreamableHttp);
    s.access_token = Some("abc".to_string());
    s.refresh_token = Some("r".to_string());
    let message = failed(plan_auth_headers(&s));
    assert!(message.starts_with("Specify only one auth source: access_token, refresh_token."));
}

#[test]
fn scenario_auth_attaches_access_token() {
    let mut s = base(TransportType::StreamableHttp);
    s.access_token = Some("abc".to_string());
    s.headers = Some(vec![("X-Trace".to_string(), "1".to_string())]);
    match plan_auth_headers(&s) {
        AuthPlan::Done(AuthHeaderResult::Headers(Some(h))) => {
            assert_eq!(
                h,
                vec![
                    ("X-Trace".to_string(), "1".to_string()),
                    ("Authorization".to_string(), "Bearer abc".to_string()),
                ]
            );
        }
        _ => panic!("expected headers"),
    }
}

#[test]
fn scenario_auth_access_token_needs_url() {
    let mut s = base(TransportType::StreamableHttp);
    s.url = None;
    s.access_token = Some("abc".to_string());
    assert_eq!(failed(plan_auth_headers(&s)), "access_token requires a target URL");
}

#[test]
fn scenario_auth_rejects_existing_authorization_header() {
    let mut s = base(TransportType::StreamableHttp);
    s.access_token = Some("abc".to_string());
    s.headers = Some(vec![("authorization".to_string(), "Bearer x".to_string())]);
    assert_eq!(
        failed(plan_auth_headers(&s)),
        "Authorization header already provided; remove it or disable auth."
    );
}

#[test]
fn scenario_auth_reads_access_token_path() {
    let mut s = base(TransportType::Sse);
    s.access_token_path = Some("/tmp/token".to_string());
    match plan_auth_headers(&s) {
        AuthPlan::ReadAccessToken(p) => assert_eq!(p, "/tmp/token"),
        _ => panic!("expected a file read"),
    }
    s.url = None;
    assert_eq!(failed(plan_auth_headers(&s)), "access_token_path requires a target URL");
}

#[test]
fn scenario_auth_refresh_needs_http() {
    let mut s = base(TransportType::Stdio);
    s.refresh_token = Some("r".to_string());
    assert_eq!(
        failed(plan_auth_headers(&s)),
        "refresh_token auth is only supported for HTTP transports."
    );
    let mut s = base(TransportType::StreamableHttp);
    s.refresh_token_path = Some("/tmp/refresh".to_string());
    match plan_auth_headers(&s) {
        AuthPlan::Refresh(p) => assert_eq!(p, Some("/tmp/refresh".to_string())),
        _ => panic!("expected a refresh"),
    }
    s.url = None;
    assert_eq!(failed(plan_auth_headers(&s)), "refresh_token requires a target URL");
}

#[test]
fn scenario_auth_use_auth_and_none() {
    let mut s = base(TransportType::StreamableHttp);
    s.use_auth = Some(true);
    match plan_auth_headers(&s) {
        AuthPlan::UseStoredAuth(u) => assert_eq!(u, "https://mcp.example/mcp"),
        _ => panic!("expected stored auth"),
    }
    s.url = None;
    assert_eq!(failed(plan_auth_headers(&s)), "use_auth requires a target URL");
    let mut s = base(TransportType::StreamableHttp);
    s.use_auth = Some(false);
    s.headers = Some(vec![("A".to_string(), "b".to_string())]);
    match plan_auth_headers(&s) {
        AuthPlan::Done(AuthHeaderResult::Headers(Some(h))) => {
            assert_eq!(h, vec![("A".to_string(), "b".to_string())])
        }
        _ => panic!("expected the headers unchanged"),
    }
}

#[test]
fn scenario_refresh_request_prefers_scenario_settings() {
    let mut s = base(TransportType::StreamableHttp);
    s.refresh_token_path = Some("/tmp/r".to_string());
    s.client_id = Some("scenario-client".to_string());
    s.timeout_ms = Some(500);
    let file = RefreshTokenFile {
        refresh_token: "file-refresh".to_string(),
        client_id: Some("file-client".to_string()),
        client_secret: Some("file-secret".to_string()),
        token_endpoint: Some("https://auth.example/token".to_string()),
        scope: None,
        server_url: Some("https://other.example".to_string()),
    };
    let options: RefreshTokenOptions = refresh_request(&s, Some(&file)).expect("request");
    assert_eq!(options.refresh_token, "file-refresh");
    assert_eq!(options.client_id, "scenario-client");
    assert_eq!(options.client_secret.as_deref(), Some("file-secret"));
    assert_eq!(options.token_endpoint.as_deref(), Some("https://auth.example/token"));
    assert_eq!(options.scope, None);
    assert_eq!(options.server_url.as_deref(), Some("https://mcp.example/mcp"));
    assert_eq!(options.timeout_ms, Some(500));
}

#[test]
fn scenario_refresh_request_errors() {
    let s = base(TransportType::StreamableHttp);
    assert_eq!(refresh_request(&s, None).err().unwrap(), "refresh_token is required.");
    let mut s = base(TransportType::StreamableHttp);
    s.refresh_token = Some("r".to_string());
    assert_eq!(
        refresh_request(&s, None).err().unwrap(),
        "client_id is required to refresh tokens."
    );
}

#[test]
fn scenario_attach_token_outcome_passes_failures_on() {
    match attach_token_outcome(None, Err("Token file is empty.".to_string())) {
        AuthHeaderResult::Failed(m) => assert_eq!(m, "Token file is empty."),
        _ => panic!("expected a failure"),
    }
    match attach_token_outcome(None, Ok("tok".to_string())) {
        AuthHeaderResult::Headers(Some(h)) => {
            assert_eq!(h, vec![("Authorization".to_string(), "Bearer tok".to_string())])
        }
        _ => panic!("expected headers"),
    }
    match attach_token_result(Some(vec![("AUTHORIZATION".to_string(), "x".to_string())]), "t") {
        AuthHeaderResult::Failed(_) => {}
        _ => panic!("expected a failure"),
    }
}
