use mcp_probe::auth::{
    attach_access_token, enforce_registration_endpoint_expectation, extract_resource_metadata_url,
    format_auth_source_error, is_token_expired_at, normalize_tokens_at, parse_header_value,
    CachedTokens,
};

#[test]
fn registration_endpoint_expectation_accepts_present_endpoint() {
    let result =
        enforce_registration_endpoint_expectation(Some("https://issuer.example/register"), true);
    assert!(result.is_ok());
}

#[test]
fn registration_endpoint_expectation_rejects_missing_endpoint() {
    let result = enforce_registration_endpoint_expectation(None, true);
    assert!(result.is_err());
    let message = result.expect_err("should fail").to_string();
    assert!(message.contains("missing registration_endpoint"));
}

#[test]
fn registration_endpoint_is_optional_when_not_expected() {
    assert!(enforce_registration_endpoint_expectation(None, false).is_ok());
}

#[test]
fn resource_metadata_url_is_read_from_quoted_and_bare_values() {
    assert_eq!(
        extract_resource_metadata_url(
            "Bearer realm=\"mcp\", resource_metadata=\"https://a.example/.well-known/oauth-protected-resource\""
        ),
        Some("https://a.example/.well-known/oauth-protected-resource".to_string())
    );
    assert_eq!(
        extract_resource_metadata_url("Bearer Resource_Metadata=https://b.example/prm, scope=x"),
        Some("https://b.example/prm".to_string())
    );
    assert_eq!(extract_resource_metadata_url("Bearer realm=\"mcp\""), None);
    assert_eq!(extract_resource_metadata_url("Bearer resource_metadata=\"  \""), None);
    assert_eq!(extract_resource_metadata_url("Bearer resource_metadata=\"unterminated"), None);
}

#[test]
fn header_values_resolve_escapes_and_report_consumed_length() {
    assert_eq!(
        parse_header_value("  \"a\\\"b\" rest"),
        Some(("a\"b".to_string(), 8))
    );
    assert_eq!(parse_header_value("abc;def"), Some(("abc".to_string(), 3)));
    assert_eq!(parse_header_value(""), Some((String::new(), 0)));
}

#[test]
fn auth_source_conflicts_explain_the_choice() {
    let both = format_auth_source_error(&["use_auth".to_string(), "refresh_token".to_string()]);
    assert_eq!(
        both,
        "Specify only one auth source: use_auth, refresh_token. use_auth uses cached tokens; refresh_token* refreshes in-memory. Remove use_auth when using refresh_token*."
    );
    let other = format_auth_source_error(&[
        "access_token".to_string(),
        "access_token_path".to_string(),
    ]);
    assert_eq!(
        other,
        "Specify only one auth source: access_token, access_token_path. Choose one: use_auth (cached), access_token/access_token_path, or refresh_token/refresh_token_path."
    );
}

#[test]
fn bearer_header_is_attached_once() {
    let headers = attach_access_token(Some(vec![("X-Trace".to_string(), "1".to_string())]), "tok")
        .expect("attach");
    assert_eq!(
        headers,
        vec![
            ("X-Trace".to_string(), "1".to_string()),
            ("Authorization".to_string(), "Bearer tok".to_string()),
        ]
    );
    let err = attach_access_token(Some(vec![("AUTHORIZATION".to_string(), "x".to_string())]), "tok")
        .unwrap_err();
    assert_eq!(
        err,
        "Authorization header already provided; remove it or disable auth."
    );
    assert_eq!(
        attach_access_token(None, "t").unwrap(),
        vec![("Authorization".to_string(), "Bearer t".to_string())]
    );
}

fn tokens(expires_at: Option<i64>) -> CachedTokens {
    CachedTokens {
        access_token: "a".to_string(),
        refresh_token: None,
        token_type: None,
        scope: None,
        expires_at,
        obtained_at: "2026-01-01T00:00:00Z".to_string(),
    }
}

#[test]
fn tokens_expire_thirty_seconds_early() {
    assert!(!is_token_expired_at(&tokens(None), 1_000));
    assert!(is_token_expired_at(&tokens(Some(1_030)), 1_000));
    assert!(!is_token_expired_at(&tokens(Some(1_031)), 1_000));
}

#[test]
fn normalized_tokens_resolve_expiry() {
    let t = normalize_tokens_at("a".into(), None, None, None, Some(60), None, 100, "x".into());
    assert_eq!(t.expires_at, Some(160));
    let t = normalize_tokens_at("a".into(), None, None, None, Some(60), Some(5), 100, "x".into());
    assert_eq!(t.expires_at, Some(5));
}

#[test]
fn normalize_tokens_now_resolves_the_expiry() {
    let t = mcp_probe::auth::normalize_tokens("a".into(), None, None, None, Some(60), Some(5)).expect("tokens");
    assert_eq!(t.expires_at, Some(5));
    assert_eq!(t.access_token, "a");
    let t = mcp_probe::auth::normalize_tokens("a".into(), None, None, None, None, None).expect("tokens");
    assert_eq!(t.expires_at, None);
    let t = mcp_probe::auth::normalize_tokens("a".into(), None, None, None, Some(60), None).expect("tokens");
    assert!(t.expires_at.expect("expiry") > 60);
    assert!(mcp_probe::auth::normalize_tokens("a".into(), None, None, None, Some(i64::MAX), None).is_none());
}
