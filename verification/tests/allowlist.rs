use mcp_probe::allowlist::{
    apply_expect_auth_required, enforce_host_allowlist, enforce_stdio_allowlist, ensure_host_allowed,
    is_host_allowed, is_stdio_allowed, is_truthy, parse_allowed_hosts_env,
};
use mcp_probe::report::{ProbeStep, ProbeStepStatus};
use mcp_probe::scenario::allowlist::enforce_host_allowlist as enforce_scenario_host_allowlist;
use mcp_probe::transport::TransportType;

fn hosts(items: &[&str]) -> Vec<String> {
    items.iter().map(|s| s.to_string()).collect()
}

fn step(name: &str, ok: bool, detail: Option<&str>) -> ProbeStep {
    ProbeStep {
        name: name.to_string(),
        status: if ok { ProbeStepStatus::Passed } else { ProbeStepStatus::Error },
        detail: detail.map(str::to_string),
        data: None,
    }
}

#[test]
fn hosts_match_by_name_host_port_or_origin() {
    let local = hosts(&["localhost"]);
    assert!(is_host_allowed("http://localhost:8080/mcp", Some(&local)));
    assert!(is_host_allowed("http://example.com/", Some(&hosts(&["example.com:80"]))));
    assert!(is_host_allowed("https://api.example.com/x", Some(&hosts(&["https://api.example.com"]))));
    assert!(!is_host_allowed("https://api.example.com:8443/x", Some(&hosts(&["https://api.example.com"]))));
    assert!(!is_host_allowed("http://evil.test/", Some(&local)));
    assert!(!is_host_allowed("not a url", Some(&local)));
    assert!(is_host_allowed("not a url", None));
    assert!(is_host_allowed("not a url", Some(&[])));
    assert_eq!(
        ensure_host_allowed("http://evil.test/", Some(&local), "PRM"),
        Err("PRM host is not in the allowlist".to_string())
    );
    assert_eq!(ensure_host_allowed("http://localhost/", Some(&local), "PRM"), Ok(()));
}

#[test]
fn allowlist_setting_parses_with_local_default() {
    assert_eq!(parse_allowed_hosts_env(None), Some(hosts(&["localhost", "127.0.0.1", "::1"])));
    assert_eq!(parse_allowed_hosts_env(Some("   ")), Some(hosts(&["localhost", "127.0.0.1", "::1"])));
    assert_eq!(parse_allowed_hosts_env(Some("a.com, b.com\tc")), Some(hosts(&["a.com", "b.com", "c"])));
    assert_eq!(parse_allowed_hosts_env(Some(",,")), None);
}

#[test]
fn truthy_settings() {
    assert!(!is_truthy("0"));
    assert!(!is_truthy(" OFF "));
    assert!(!is_truthy("False"));
    assert!(!is_truthy("no"));
    assert!(is_truthy("1"));
    assert!(is_truthy("yes"));
    assert!(is_stdio_allowed(Some("true")));
    assert!(!is_stdio_allowed(None));
}

#[test]
fn stdio_allowlist_step() {
    let mut steps = Vec::new();
    assert!(enforce_stdio_allowlist("streamable-http", &mut steps, false));
    assert!(steps.is_empty());
    assert!(!enforce_stdio_allowlist("stdio", &mut steps, false));
    assert_eq!(steps[0].status, ProbeStepStatus::Error);
    assert_eq!(steps[0].detail.as_deref(), Some("stdio transport disabled. Set MCP_PROBE_ALLOW_STDIO=1 to enable."));
    assert!(enforce_stdio_allowlist("stdio", &mut steps, true));
    assert_eq!(steps[1].status, ProbeStepStatus::Passed);
}

#[test]
fn host_allowlist_steps() {
    let local = hosts(&["localhost"]);
    let mut steps = Vec::new();
    assert!(enforce_host_allowlist("stdio", None, &mut steps, Some(&local), false));
    assert_eq!(steps[0].detail.as_deref(), Some("not applicable"));
    assert!(enforce_host_allowlist("sse", None, &mut steps, None, false));
    assert_eq!(steps[1].detail.as_deref(), Some("not configured"));
    assert!(!enforce_host_allowlist("sse", None, &mut steps, Some(&local), false));
    assert_eq!(steps[2].detail.as_deref(), Some("Missing target URL"));
    assert!(!enforce_host_allowlist("streamable-http", Some("http://evil.test/x"), &mut steps, Some(&local), true));
    assert_eq!(steps[3].detail.as_deref(), Some("Host not allowed: evil.test"));
    assert_eq!(
        steps[3].data.as_ref().unwrap().to_json_text(),
        r#"{"code":"host_not_allowed","host":"evil.test","url":"http://evil.test/x"}"#
    );
    assert!(!enforce_host_allowlist("streamable-http", Some("not a url"), &mut steps, Some(&local), true));
    assert_eq!(steps[4].detail.as_deref(), Some("Malformed target URL"));
    assert_eq!(
        steps[4].data.as_ref().unwrap().to_json_text(),
        r#"{"code":"url_malformed","endpoint":"target","error":"relative URL without a base","url":"not a url"}"#
    );
    assert!(enforce_host_allowlist("streamable-http", Some("http://localhost:1/mcp"), &mut steps, Some(&local), false));
    assert_eq!(steps[5].status, ProbeStepStatus::Passed);
    assert_eq!(steps[5].detail.as_deref(), Some("default (localhost only)"));
    assert!(enforce_host_allowlist("streamable-http", Some("http://localhost:1/mcp"), &mut steps, Some(&local), true));
    assert!(steps[6].detail.is_none());
}

#[test]
fn scenario_host_allowlist_steps() {
    let local = hosts(&["localhost"]);
    let mut steps = Vec::new();
    assert!(enforce_scenario_host_allowlist(TransportType::Stdio, None, &mut steps, Some(&local), false));
    assert_eq!(steps[0].detail.as_deref(), Some("not applicable"));
    assert!(!enforce_scenario_host_allowlist(TransportType::StreamableHttp, Some("http://evil.test/x"), &mut steps, Some(&local), true));
    assert_eq!(steps[1].detail.as_deref(), Some("Host not allowed: evil.test"));
    assert!(steps[1].data.is_none());
    assert!(!enforce_scenario_host_allowlist(TransportType::Sse, Some("bad"), &mut steps, Some(&local), true));
    assert_eq!(steps[2].detail.as_deref(), Some("Host not allowed: unknown"));
}

#[test]
fn expect_auth_required_follows_first_prm_step() {
    let mut steps = vec![step("auth.prm", true, Some("resource metadata found"))];
    apply_expect_auth_required(&mut steps, Some(true));
    assert_eq!(steps[1].name, "expect.auth_required");
    assert_eq!(steps[1].status, ProbeStepStatus::Passed);
    assert!(steps[1].detail.is_none());

    let mut steps = vec![step("auth.prm", true, Some("no auth required")), step("auth.prm", true, None)];
    apply_expect_auth_required(&mut steps, Some(true));
    assert_eq!(steps[2].status, ProbeStepStatus::Error);
    assert_eq!(steps[2].detail.as_deref(), Some("Expected an auth challenge but none was detected"));

    let mut steps = Vec::new();
    apply_expect_auth_required(&mut steps, None);
    assert!(steps.is_empty());
    apply_expect_auth_required(&mut steps, Some(true));
    assert_eq!(steps[0].status, ProbeStepStatus::Error);
}

#[test]
fn blank_stdio_setting_leaves_stdio_off() {
    assert!(!is_stdio_allowed(Some("")));
    assert!(!is_stdio_allowed(Some("   ")));
    assert!(is_stdio_allowed(Some(" 1 ")));
    assert!(!is_stdio_allowed(Some(" off ")));
}
