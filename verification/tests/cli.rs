use mcp_probe::cli::{
    option_consumes_value, parse_args, parse_auth_args, parse_http_smoke_args, parse_prompt_argument,
    parse_prompt_render_args, prompt_argument_value, resolve_prompt_arguments, PromptArgumentSource,
};
use mcp_probe::json::JsonValue;
use serde_json::Value;
use mcp_probe::report::ReportVerbosity;
use mcp_probe::transport::TransportType;

fn argv(items: &[&str]) -> Vec<String> {
    items.iter().map(|s| s.to_string()).collect()
}

#[test]
fn parse_auth_args_accepts_expect_registration_endpoint() {
    let args = parse_auth_args(&argv(&[
        "--server",
        "http://127.0.0.1:9526/mcp",
        "--expect-registration-endpoint",
    ]))
    .ok()
    .expect("auth args should parse");
    assert_eq!(args.server_url, "http://127.0.0.1:9526/mcp");
    assert!(args.expect_registration_endpoint);
}

#[test]
fn parse_auth_args_applies_defaults_and_rejects_bad_port() {
    let args = parse_auth_args(&argv(&["--server", "https://s.example/mcp"]))
        .ok()
        .expect("auth args");
    assert_eq!(args.redirect_host, "127.0.0.1");
    assert_eq!(args.redirect_port, 3333);
    assert!(!args.allow_dcr);
    let err = parse_auth_args(&argv(&["--server", "x", "--redirect-port", "70000"]))
        .err()
        .expect("port out of range");
    assert_eq!(err.error, "Invalid --redirect-port value");
    let err = parse_auth_args(&argv(&["--open"])).err().expect("missing server");
    assert_eq!(err.error, "Missing --server");
    let err = parse_auth_args(&argv(&["--bogus"])).err().expect("unknown");
    assert_eq!(err.error, "Unknown auth argument: --bogus");
    assert!(parse_auth_args(&argv(&["-h"])).err().expect("help").help);
}

#[test]
fn parse_args_accepts_catalog_contract_path() {
    let args = parse_args(&argv(&[
        "--transport",
        "streamable-http",
        "--url",
        "http://127.0.0.1:9526/mcp",
        "--catalog-contract",
        "catalog-contract.json",
    ]))
    .ok()
    .expect("args should parse");
    assert_eq!(
        args.overrides.catalog_contract_path.as_deref(),
        Some("catalog-contract.json")
    );
}

#[test]
fn parse_args_collects_target_options() {
    let args = parse_args(&argv(&[
        "run",
        "--transport",
        "stdio",
        "--command",
        "server-bin",
        "--arg",
        "a",
        "--arg",
        "b",
        "--header",
        " X-Key : one ",
        "--header",
        "X-Key:two",
        "--env",
        "K=v=w",
        "--timeout-ms",
        "+25",
        "--verbosity",
        "full",
        "--pretty",
    ]))
    .ok()
    .expect("args");
    let o = &args.overrides;
    assert_eq!(o.transport_type, Some(TransportType::Stdio));
    assert_eq!(o.command.as_deref(), Some("server-bin"));
    assert_eq!(o.args, Some(vec!["a".to_string(), "b".to_string()]));
    assert_eq!(
        o.headers,
        Some(vec![("X-Key".to_string(), "two".to_string())])
    );
    assert_eq!(o.env, Some(vec![("K".to_string(), "v=w".to_string())]));
    assert_eq!(o.timeout_ms, Some(25));
    assert_eq!(args.verbosity, Some(ReportVerbosity::Full));
    assert!(args.pretty);
}

#[test]
fn parse_args_reports_errors() {
    let e = parse_args(&argv(&["--url", "http://x"])).err().expect("no transport");
    assert_eq!(e.error, "Missing --transport (or --config)");
    let e = parse_args(&argv(&["--transport", "stdio", "--header", ":v"]))
        .err()
        .expect("empty header key");
    assert_eq!(e.error, "Header must be in key:value form");
    let e = parse_args(&argv(&["--transport", "stdio", "--trace-limit", "0"]))
        .err()
        .expect("zero trace limit");
    assert_eq!(e.error, "Invalid --trace-limit value");
    let e = parse_args(&argv(&["--script", "s.json", "--url", "http://x"]))
        .err()
        .expect("script conflict");
    assert!(e.error.starts_with("Do not mix --script"));
    let e = parse_args(&argv(&["--transport"])).err().expect("missing value");
    assert_eq!(e.error, "Missing value for --transport");
    let e = parse_args(&argv(&["--catalog-profile", "nope"])).err().expect("bad profile");
    assert!(e.error.starts_with("Invalid catalog profile `nope`"));
    assert!(parse_args(&argv(&["--help"])).err().expect("help").help);
}

#[test]
fn parse_args_script_mode_drops_target_overrides() {
    let args = parse_args(&argv(&["--script", "s.json", "--snapshot-write", "--timeout-ms", "5"]))
        .ok()
        .expect("script args");
    assert_eq!(args.script_path.as_deref(), Some("s.json"));
    assert!(args.snapshot_write);
    assert_eq!(args.overrides.timeout_ms, None);
}

#[test]
fn http_smoke_args_parse() {
    let args = parse_http_smoke_args(&argv(&[
        "--url",
        "https://s.example/mcp",
        "--timeout-ms",
        "1500",
        "--expect-auth-required",
    ]))
    .ok()
    .expect("smoke args");
    assert_eq!(args.url, "https://s.example/mcp");
    assert_eq!(args.timeout_ms, Some(1500));
    assert_eq!(args.expect_auth_required, Some(true));
    assert_eq!(args.expect_registration_endpoint, None);
    let e = parse_http_smoke_args(&argv(&["--timeout-ms", "soon"])).err().expect("bad");
    assert_eq!(e.error, "Invalid --timeout-ms value");
}

#[test]
fn value_options_are_known() {
    assert!(option_consumes_value("--header"));
    assert!(!option_consumes_value("--pretty"));
}

fn to_json(v: &Value) -> JsonValue {
    match v {
        Value::Null => JsonValue::Null,
        Value::Bool(b) => JsonValue::Bool(*b),
        Value::Number(n) => JsonValue::Number(n.to_string()),
        Value::String(s) => JsonValue::String(s.clone()),
        Value::Array(items) => JsonValue::Array(items.iter().map(to_json).collect()),
        Value::Object(map) => {
            JsonValue::Object(map.iter().map(|(k, v)| (k.clone(), to_json(v))).collect())
        }
    }
}

fn read_json(text: &str) -> Result<JsonValue, String> {
    serde_json::from_str::<Value>(text).map(|v| to_json(&v)).map_err(|e| e.to_string())
}

fn source_text(source: &PromptArgumentSource) -> &str {
    match source {
        PromptArgumentSource::Pair(_, text) => text,
        PromptArgumentSource::Json(text) => text,
    }
}

fn resolve(items: &[&str]) -> Result<Option<Vec<(String, JsonValue)>>, String> {
    let scan = parse_prompt_render_args(&argv(items));
    let parsed = scan.sources.iter().map(|s| read_json(source_text(s))).collect();
    resolve_prompt_arguments(&scan.sources, parsed).map_err(|e| e.error)
}

#[test]
fn parse_prompt_argument_accepts_json_values() {
    let (key, text) = parse_prompt_argument("case={\"id\":\"C123\",\"include\":true}")
        .ok()
        .expect("prompt argument should parse");
    let value = prompt_argument_value(&text, read_json(&text));

    assert_eq!(key, "case");
    assert_eq!(value.to_json_text(), r#"{"id":"C123","include":true}"#);
}

#[test]
fn prompt_argument_errors_and_plain_text_values() {
    assert_eq!(parse_prompt_argument("novalue").err().unwrap().error, "Prompt argument must be in key=json form");
    assert_eq!(parse_prompt_argument("=1").err().unwrap().error, "Prompt argument key cannot be empty");
    assert_eq!(parse_prompt_argument("  =1").err().unwrap().error, "Prompt argument key cannot be empty");
    let (key, text) = parse_prompt_argument(" name = not json ").ok().unwrap();
    assert_eq!((key.as_str(), text.as_str()), ("name", "not json"));
    let value = prompt_argument_value(&text, read_json(&text));
    assert!(matches!(value, JsonValue::String(s) if s == "not json"));
}

#[test]
fn parse_prompt_render_args_reuses_target_parser() {
    let items = [
        "--prompt",
        "summarize_case",
        "--prompt-arg",
        "case_id=\"C123\"",
        "--transport",
        "streamable-http",
        "--url",
        "http://127.0.0.1:9526/mcp",
        "--verbosity",
        "full",
        "--expect-error-contains",
        "missing",
    ];
    let scan = parse_prompt_render_args(&argv(&items));
    let parsed = scan.outcome.ok().expect("prompt render args should parse");
    let arguments = resolve(&items).ok().expect("arguments resolve").expect("some arguments");

    assert_eq!(parsed.prompt_name, "summarize_case");
    assert!(matches!(
        arguments.iter().find(|(k, _)| k == "case_id").map(|(_, v)| v),
        Some(JsonValue::String(s)) if s == "C123"
    ));
    assert_eq!(parsed.target.overrides.url.as_deref(), Some("http://127.0.0.1:9526/mcp"));
    assert!(parsed.expect_error.is_some());
}

#[test]
fn prompt_render_arguments_json_merges_and_fails_closed() {
    let merged = resolve(&["--prompt", "p", "--prompt-arg", "a=1", "--arguments-json", "{\"b\":2,\"a\":3}", "--transport", "stdio"])
        .ok()
        .unwrap()
        .unwrap();
    let text: Vec<String> = merged.iter().map(|(k, v)| format!("{k}={}", v.to_json_text())).collect();
    assert_eq!(text, vec!["a=3".to_string(), "b=2".to_string()]);
    let err = resolve(&["--prompt", "p", "--arguments-json", "[1]"]).err().unwrap();
    assert_eq!(err, "--arguments-json must be a JSON object");
    let err = resolve(&["--arguments-json", "{", "--prompt"]).err().unwrap();
    assert!(err.starts_with("Invalid --arguments-json value: "));
    let scan = parse_prompt_render_args(&argv(&["--transport", "stdio"]));
    assert_eq!(scan.outcome.err().unwrap().error, "Missing --prompt");
    assert!(resolve(&["--prompt", "p", "--transport", "stdio"]).ok().unwrap().is_none());
    let scan = parse_prompt_render_args(&argv(&["--prompt", "p", "--script", "s.json"]));
    assert_eq!(scan.outcome.err().unwrap().error, "prompt-render cannot be combined with --script");
}

#[test]
fn value_options_take_the_next_argument_and_flags_do_not() {
    let argv: Vec<String> = ["run", "--transport", "stdio", "--out", "--pretty"].iter().map(|s| s.to_string()).collect();
    let parsed = mcp_probe::cli::parse_args(&argv).ok().expect("parsed");
    assert_eq!(parsed.out_path.as_deref(), Some("--pretty"));
    assert!(!parsed.pretty);
    assert!(mcp_probe::cli::option_consumes_value("--out"));
    assert!(!mcp_probe::cli::option_consumes_value("--pretty"));

    let argv: Vec<String> = ["run", "--transport", "stdio", "--pretty", "report.json"].iter().map(|s| s.to_string()).collect();
    assert!(mcp_probe::cli::parse_args(&argv).is_err());
}
