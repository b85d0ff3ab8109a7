use mcp_probe::cli::{
    build_error_report, catalog_contract_source, config_has_target_fields, empty_overrides, map_config_to_overrides,
    merge_maps, resolve_target, resolved_transport, select_target_config, strip_raw, strip_raw_request_report,
    validate_target, ContractSource, ProbeConfigFile, ProbeTargetConfig,
};
use mcp_probe::json::JsonValue;
use mcp_probe::report::{CatalogContract, ProbeReport, RawRequestReport, ReportVerbosity};
use mcp_probe::transport::TransportType;

fn empty_config() -> ProbeTargetConfig {
    ProbeTargetConfig {
        transport: None,
        command: None,
        args: None,
        cwd: None,
        env: None,
        url: None,
        headers: None,
        timeout_ms: None,
        retries: None,
        retry_delay_ms: None,
        expect_auth_required: None,
        log_level: None,
        log_format: None,
        trace: None,
        trace_limit: None,
        trace_max_bytes: None,
        descriptor_profile: None,
        catalog_profile: None,
        catalog_contract: None,
        catalog_contract_path: None,
        use_auth: None,
        access_token_path: None,
    }
}

fn pairs(items: &[(&str, &str)]) -> Vec<(String, String)> {
    items.iter().map(|(k, v)| (k.to_string(), v.to_string())).collect()
}

#[test]
fn config_selection_prefers_profile_then_target_then_direct() {
    let mut named = empty_config();
    named.url = Some("http://profile/mcp".into());
    let mut target = empty_config();
    target.url = Some("http://target/mcp".into());
    let mut direct = empty_config();
    direct.command = Some("server".into());
    let file = ProbeConfigFile {
        profiles: Some(vec![("dev".to_string(), named)]),
        target: Some(target),
        direct,
    };
    let chosen = select_target_config(&file, "cfg.json", Some("dev")).ok().unwrap();
    assert_eq!(chosen.url.as_deref(), Some("http://profile/mcp"));
    assert_eq!(select_target_config(&file, "cfg.json", Some("prod")).err().unwrap(), "Profile prod not found in cfg.json");
    let chosen = select_target_config(&file, "cfg.json", None).ok().unwrap();
    assert_eq!(chosen.url.as_deref(), Some("http://target/mcp"));

    let mut direct = empty_config();
    direct.transport = Some(TransportType::Stdio);
    let file = ProbeConfigFile { profiles: None, target: None, direct };
    assert!(config_has_target_fields(&file.direct));
    let chosen = select_target_config(&file, "cfg.json", None).ok().unwrap();
    assert_eq!(chosen.transport, Some(TransportType::Stdio));

    let file = ProbeConfigFile { profiles: None, target: None, direct: empty_config() };
    assert_eq!(select_target_config(&file, "cfg.json", None).err().unwrap(), "No target configuration found in cfg.json");
}

#[test]
fn maps_merge_with_overrides_winning() {
    let merged = merge_maps(Some(pairs(&[("A", "1"), ("B", "2")])), Some(pairs(&[("B", "3"), ("C", "4")])));
    assert_eq!(merged, pairs(&[("A", "1"), ("B", "3"), ("C", "4")]));
    assert!(merge_maps(None, None).is_empty());
}

#[test]
fn target_resolution_layers_overrides_over_config() {
    let mut config = empty_config();
    config.transport = Some(TransportType::StreamableHttp);
    config.url = Some("http://config/mcp".into());
    config.headers = Some(pairs(&[("X-A", "1")]));
    config.timeout_ms = Some(5);
    config.use_auth = Some(true);
    config.access_token_path = Some("tok.json".into());
    let base = map_config_to_overrides(&config);
    let mut overrides = empty_overrides();
    overrides.url = Some("http://cli/mcp".into());
    overrides.headers = Some(pairs(&[("X-B", "2")]));
    assert_eq!(resolved_transport(&overrides, &base), Some(TransportType::StreamableHttp));
    assert!(matches!(catalog_contract_source(&overrides, &base), ContractSource::Given(None)));

    let (target, use_auth, token_path) =
        resolve_target(overrides, base, config.use_auth, config.access_token_path.clone(), None, None, Ok(None))
            .ok()
            .unwrap();
    assert_eq!(target.transport_type, TransportType::StreamableHttp);
    assert_eq!(target.url.as_deref(), Some("http://cli/mcp"));
    assert_eq!(target.timeout_ms, Some(5));
    assert_eq!(target.headers, Some(pairs(&[("X-A", "1"), ("X-B", "2")])));
    assert!(target.env.is_none());
    assert!(use_auth);
    assert_eq!(token_path.as_deref(), Some("tok.json"));
    assert!(validate_target(&target).is_ok());
}

#[test]
fn target_resolution_failures_come_in_order() {
    let err = resolve_target(empty_overrides(), empty_overrides(), None, None, None, None, Err("contract".into()))
        .err()
        .unwrap();
    assert_eq!(err, "Missing transport configuration.");
    let mut overrides = empty_overrides();
    overrides.transport_type = Some(TransportType::Stdio);
    let err = resolve_target(overrides, empty_overrides(), None, None, None, None, Err("contract".into())).err().unwrap();
    assert_eq!(err, "contract");
    let mut overrides = empty_overrides();
    overrides.transport_type = Some(TransportType::Stdio);
    let err = resolve_target(overrides, empty_overrides(), None, None, None, None, Ok(None)).err().unwrap();
    assert_eq!(err, "Missing command for stdio transport.");
    let mut overrides = empty_overrides();
    overrides.transport_type = Some(TransportType::Sse);
    let err = resolve_target(overrides, empty_overrides(), None, None, Some(false), Some("x"), Ok(None)).err().unwrap();
    assert_eq!(err, "Missing URL for HTTP transport.");
}

#[test]
fn contract_path_takes_precedence() {
    let mut base = empty_overrides();
    base.catalog_contract_path = Some("base.json".into());
    base.catalog_contract = Some(CatalogContract { schema_version: 1, ..Default::default() });
    let overrides = empty_overrides();
    assert!(matches!(catalog_contract_source(&overrides, &base), ContractSource::File(p) if p == "base.json"));
    let mut overrides = empty_overrides();
    overrides.catalog_contract_path = Some("cli.json".into());
    assert!(matches!(catalog_contract_source(&overrides, &base), ContractSource::File(p) if p == "cli.json"));
    base.catalog_contract_path = None;
    assert!(matches!(catalog_contract_source(&empty_overrides(), &base), ContractSource::Given(Some(c)) if c.schema_version == 1));
}

fn sample_report() -> ProbeReport {
    let mut report = build_error_report("boom", "t0".into(), "t1".into());
    report.tools = Some(JsonValue::Null);
    report.server_info = Some(JsonValue::Bool(true));
    report
}

#[test]
fn reports_drop_raw_payloads_unless_asked() {
    let report = build_error_report("boom", "t0".into(), "t1".into());
    assert!(!report.ok);
    assert_eq!(report.steps.len(), 1);
    assert_eq!(report.steps[0].name, "cli");
    assert_eq!(report.steps[0].detail.as_deref(), Some("boom"));
    assert_eq!(report.started_at, "t0");

    let kept = strip_raw(sample_report(), true);
    assert!(kept.tools.is_some());
    let stripped = strip_raw(sample_report(), false);
    assert!(stripped.tools.is_none() && stripped.server_info.is_none());
    assert_eq!(stripped.steps.len(), 1);

    let raw = RawRequestReport {
        ok: true,
        started_at: "a".into(),
        finished_at: "b".into(),
        steps: Vec::new(),
        server_info: Some(JsonValue::Null),
        capabilities: None,
        result: Some(JsonValue::Bool(true)),
        error: None,
        auth: None,
        trace: None,
    };
    let stripped = strip_raw_request_report(raw, false, None);
    assert!(stripped.server_info.is_none());
    assert!(stripped.result.is_some());
    let raw = RawRequestReport {
        ok: true,
        started_at: "a".into(),
        finished_at: "b".into(),
        steps: Vec::new(),
        server_info: Some(JsonValue::Null),
        capabilities: None,
        result: None,
        error: None,
        auth: None,
        trace: None,
    };
    let kept = strip_raw_request_report(raw, false, Some(ReportVerbosity::Full));
    assert!(kept.server_info.is_some());
}
