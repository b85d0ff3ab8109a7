use mcp_probe::auth::{
    callback_code, callback_from_pairs, callback_reply, head_complete, metadata_urls_from_prm,
    prm_url_from_challenge, read_callback, redirect_url, refresh_form_body, request_target,
    scope_list, split_words, token_endpoint_from_metadata, token_endpoint_start, CallbackResult,
    EndpointStart, RefreshTokenOptions,
};
use mcp_probe::json::JsonValue;

fn options(endpoint: Option<&str>, server: Option<&str>) -> RefreshTokenOptions {
    RefreshTokenOptions {
        refresh_token: "r t".to_string(),
        client_id: "cid".to_string(),
        client_secret: None,
        scope: Some("read write".to_string()),
        server_url: server.map(|s| s.to_string()),
        token_endpoint: endpoint.map(|s| s.to_string()),
        timeout_ms: None,
    }
}

fn obj(members: Vec<(&str, JsonValue)>) -> JsonValue {
    JsonValue::Object(members.into_iter().map(|(k, v)| (k.to_string(), v)).collect())
}

#[test]
fn token_endpoint_start_prefers_given_endpoint() {
    match token_endpoint_start(&options(Some("https://as.example/token"), None), None).unwrap() {
        EndpointStart::Given(e) => assert_eq!(e, "https://as.example/token"),
        _ => panic!("expected the given endpoint"),
    }
    let allowed = vec!["other.example".to_string()];
    assert_eq!(
        token_endpoint_start(&options(Some("https://as.example/token"), None), Some(&allowed))
            .err()
            .unwrap(),
        "Token endpoint host is not in the allowlist"
    );
    match token_endpoint_start(&options(None, Some("https://mcp.example/mcp")), None).unwrap() {
        EndpointStart::ProbeServer(s) => assert_eq!(s, "https://mcp.example/mcp"),
        _ => panic!("expected a server probe"),
    }
    assert_eq!(
        token_endpoint_start(&options(None, None), None).err().unwrap(),
        "token_endpoint or serverUrl is required to refresh tokens."
    );
}

#[test]
fn prm_url_needs_a_challenge() {
    assert_eq!(
        prm_url_from_challenge(200, "", None).err().unwrap(),
        "Failed to discover OAuth token endpoint."
    );
    let url = prm_url_from_challenge(
        401,
        "Bearer resource_metadata=\"https://mcp.example/.well-known/oauth-protected-resource\"",
        None,
    )
    .unwrap();
    assert_eq!(url, "https://mcp.example/.well-known/oauth-protected-resource");
}

#[test]
fn metadata_urls_follow_the_first_authorization_server() {
    let prm = obj(vec![(
        "authorization_servers",
        JsonValue::Array(vec![JsonValue::String("https://as.example/tenant".to_string())]),
    )]);
    let (oidc, oauth) = metadata_urls_from_prm(true, Some(prm), None, None).unwrap();
    assert_eq!(oidc, "https://as.example/tenant/.well-known/openid-configuration");
    assert_eq!(oauth, "https://as.example/tenant/.well-known/oauth-authorization-server");
    assert_eq!(
        metadata_urls_from_prm(false, None, Some("HTTP 404".to_string()), None).err().unwrap(),
        "Failed to discover OAuth token endpoint. HTTP 404"
    );
    assert_eq!(
        metadata_urls_from_prm(true, Some(obj(vec![])), None, None).err().unwrap(),
        "Failed to discover OAuth token endpoint."
    );
}

#[test]
fn token_endpoint_read_from_metadata() {
    let meta = obj(vec![(
        "token_endpoint",
        JsonValue::String("https://as.example/oauth/token".to_string()),
    )]);
    assert_eq!(
        token_endpoint_from_metadata(true, Some(meta), None, None).unwrap(),
        "https://as.example/oauth/token"
    );
    assert_eq!(
        token_endpoint_from_metadata(true, Some(obj(vec![])), None, None).err().unwrap(),
        "Failed to discover OAuth token endpoint."
    );
}

#[test]
fn refresh_form_body_is_encoded_in_order() {
    assert_eq!(
        refresh_form_body(&options(None, None)),
        "grant_type=refresh_token&refresh_token=r+t&client_id=cid&scope=read+write"
    );
}

#[test]
fn callback_request_is_read() {
    let request = "GET /oauth/callback?code=abc&state=xyz&code=def HTTP/1.1\r\nHost: x\r\n\r\n";
    assert_eq!(request_target(request), "/oauth/callback?code=abc&state=xyz&code=def");
    let cb = read_callback("127.0.0.1", 8976, request).unwrap();
    assert_eq!(cb.code.as_deref(), Some("def"));
    assert_eq!(cb.state.as_deref(), Some("xyz"));
    assert_eq!(cb.error, None);
    assert_eq!(callback_code(&cb).unwrap(), ("def".to_string(), "xyz".to_string()));
    let reply = callback_reply(&cb);
    assert_eq!(
        reply,
        "HTTP/1.1 200 OK\r\nContent-Type: text/plain\r\nContent-Length: 50\r\n\r\nAuthorization complete. You may close this window."
    );
}

#[test]
fn callback_errors_are_reported() {
    let cb = callback_from_pairs(&[
        ("error".to_string(), "access_denied".to_string()),
        ("error_description".to_string(), "user said no".to_string()),
    ]);
    assert_eq!(callback_code(&cb).unwrap_err(), "OAuth error: access_denied: user said no");
    assert!(callback_reply(&cb).ends_with("OAuth error received. You may close this window."));
    let none = CallbackResult { code: None, state: None, error: None, error_description: None };
    assert_eq!(callback_code(&none).unwrap_err(), "No authorization code received.");
    let no_state = CallbackResult { code: Some("c".to_string()), state: None, error: None, error_description: None };
    assert_eq!(callback_code(&no_state).unwrap_err(), "No state received from callback.");
}

#[test]
fn oauth_small_pieces() {
    assert_eq!(redirect_url("127.0.0.1", 8976), "http://127.0.0.1:8976/oauth/callback");
    assert_eq!(scope_list(Some("  read  write\t")), vec!["read".to_string(), "write".to_string()]);
    assert!(scope_list(None).is_empty());
    assert_eq!(split_words(" a b  c "), vec!["a", "b", "c"]);
    assert!(head_complete(b"GET / HTTP/1.1\r\n\r\n"));
    assert!(!head_complete(b"GET / HTTP/1.1\r\n"));
    assert_eq!(request_target(""), "");
}
