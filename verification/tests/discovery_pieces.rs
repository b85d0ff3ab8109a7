use mcp_probe::auth::{
    cache_lookup, cache_store, cached_access_token, CachedTokens, TokenCache, TokenCacheEntry,
};
use mcp_probe::json::JsonValue;
use mcp_probe::probe::auth_diagnostics::invalid_json_from_body;
use mcp_probe::probe::auth_discovery::{alias_probe_entry, annotate_prm_not_found, fetch_not_found};
use mcp_probe::probe::errors::ErrorDetails;
use mcp_probe::probe::listing_report;
use mcp_probe::report::ProbeStepStatus;

fn tokens(access: &str, expires_at: Option<i64>) -> CachedTokens {
    CachedTokens {
        access_token: access.to_string(),
        refresh_token: None,
        token_type: None,
        scope: None,
        expires_at,
        obtained_at: "2024-01-01T00:00:00Z".to_string(),
    }
}

fn entry(url: &str, access: &str, expires_at: Option<i64>) -> TokenCacheEntry {
    TokenCacheEntry {
        server_url: url.to_string(),
        tokens: tokens(access, expires_at),
        client_id: None,
        client_secret: None,
        updated_at: "now".to_string(),
    }
}

#[test]
fn cache_read_after_write() {
    let mut cache = TokenCache { version: 1, entries: Vec::new() };
    cache_store(&mut cache, "https://a/".to_string(), entry("https://a/", "one", None));
    cache_store(&mut cache, "https://b/".to_string(), entry("https://b/", "two", None));
    cache_store(&mut cache, "https://a/".to_string(), entry("https://a/", "three", None));
    assert_eq!(cache.entries.len(), 2);
    assert_eq!(cache_lookup(&cache, "https://a/").unwrap().tokens.access_token, "three");
    assert_eq!(cache_lookup(&cache, "https://b/").unwrap().tokens.access_token, "two");
    assert!(cache_lookup(&cache, "https://c/").is_none());
}

#[test]
fn cached_access_token_checks_expiry() {
    let fresh = entry("u", "tok", Some(1_000));
    assert_eq!(cached_access_token(Some(&fresh), 100).unwrap(), "tok");
    assert!(cached_access_token(Some(&fresh), 980)
        .unwrap_err()
        .starts_with("Cached access token has expired."));
    assert!(cached_access_token(None, 0)
        .unwrap_err()
        .starts_with("No cached tokens found for this server URL."));
}

#[test]
fn listing_report_summarizes_pages() {
    let names = vec!["a".to_string(), "b".to_string()];
    let (summary, step) = listing_report("tools/list", "tools.list", "tools", "tool_count", "tool_names", Ok((2, names.as_slice())));
    assert_eq!(summary.status, ProbeStepStatus::Passed);
    assert_eq!(summary.item_count, Some(2));
    assert_eq!(summary.page_count, Some(2));
    assert_eq!(step.detail.as_deref(), Some("discovered 2 tools across 2 page(s)"));
    assert_eq!(
        step.data.unwrap().to_json_text(),
        "{\"page_count\":2,\"tool_count\":2,\"tool_names\":[\"a\",\"b\"]}"
    );
    let err = ErrorDetails { message: "boom".to_string(), data: None };
    let (summary, step) = listing_report("prompts/list", "prompts.list", "prompts", "prompt_count", "prompt_names", Err(&err));
    assert_eq!(summary.status, ProbeStepStatus::Error);
    assert_eq!(summary.page_count, None);
    assert_eq!(step.detail.as_deref(), Some("boom"));
}

#[test]
fn prm_not_found_is_annotated() {
    let data = JsonValue::Object(vec![
        ("code".to_string(), JsonValue::String("http_status".to_string())),
        ("status".to_string(), JsonValue::Number("404".to_string())),
    ]);
    assert!(fetch_not_found(&data));
    let ok = alias_probe_entry("https://x/.well-known/oauth-protected-resource", Ok(200));
    assert_eq!(
        ok.to_json_text(),
        "{\"ok\":true,\"status\":200,\"url\":\"https://x/.well-known/oauth-protected-resource\"}"
    );
    let failed = alias_probe_entry("https://x/a", Err("refused"));
    assert_eq!(failed.to_json_text(), "{\"error\":\"refused\",\"ok\":false,\"url\":\"https://x/a\"}");
    let aliases = vec!["https://x/a".to_string()];
    let (detail, annotated) = annotate_prm_not_found("prm_metadata returned HTTP 404".to_string(), data, "https://x/prm", &aliases, vec![ok]);
    assert_eq!(
        detail,
        "prm_metadata returned HTTP 404 (challenged URL appears wrong: another PRM alias is reachable)"
    );
    let text = annotated.to_json_text();
    assert!(text.contains("\"classification\":\"challenged_prm_url_unreachable_but_alias_reachable\""));
    assert!(text.contains("\"challenged_resource_metadata_url\":\"https://x/prm\""));
    let other = JsonValue::Object(vec![("code".to_string(), JsonValue::String("http_status".to_string()))]);
    assert!(!fetch_not_found(&other));
}

#[test]
fn invalid_json_body_is_previewed() {
    let (detail, data) = invalid_json_from_body("prm_metadata", "https://x/prm", Some("text/html"), b"  <html>\nnope</html> ", "expected value");
    assert_eq!(detail, "prm_metadata did not return valid JSON");
    let text = data.to_json_text();
    assert!(text.contains("\"body_preview\":\"<html> nope</html>\""));
    assert!(text.contains("\"content_type\":\"text/html\""));
}
