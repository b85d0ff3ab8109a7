use mcp_probe::json::JsonValue;
use mcp_probe::logging::{format_json, format_logfmt, LogFormat, LogLevel, Logger};
use mcp_probe::report::redact_prefixed_tokens;

fn obj(items: &[(&str, JsonValue)]) -> JsonValue {
    JsonValue::Object(items.iter().map(|(k, v)| (k.to_string(), v.deep_clone())).collect())
}

#[test]
fn json_entries_merge_extra_members() {
    assert_eq!(format_json(1700, LogLevel::Info, "hello", None), r#"{"level":"info","msg":"hello","ts":1700}"#);
    let extra = obj(&[("step", JsonValue::String("connect".into())), ("msg", JsonValue::Bool(true))]);
    assert_eq!(format_json(5, LogLevel::Warn, "m", Some(extra)), r#"{"level":"warn","msg":true,"step":"connect","ts":5}"#);
    assert_eq!(
        format_json(u128::MAX, LogLevel::Error, "x", Some(JsonValue::Number("3".into()))),
        r#"{"data":3,"level":"error","msg":"x","ts":340282366920938463463374607431768211455}"#
    );
}

#[test]
fn logfmt_entries_quote_values() {
    assert_eq!(format_logfmt(9, LogLevel::Debug, "a b", None), r#"ts=9 level=debug msg="a b""#);
    let extra = obj(&[("k", JsonValue::String("v".into())), ("n", JsonValue::Number("1".into()))]);
    assert_eq!(format_logfmt(9, LogLevel::Info, "m", Some(extra)), r#"ts=9 level=info msg=m k="\"v\"" n=1"#);
    assert_eq!(format_logfmt(9, LogLevel::Info, "m", Some(JsonValue::Bool(false))), "ts=9 level=info msg=m data=false");
}

#[test]
fn logger_formats_only_enabled_levels() {
    let logger = Logger::new(LogLevel::Warn, LogFormat::Logfmt);
    assert!(logger.format_entry(1, LogLevel::Info, "x", None).is_none());
    assert_eq!(logger.format_entry(1, LogLevel::Error, "x", None).as_deref(), Some("ts=1 level=error msg=x"));
    let logger = Logger::new(LogLevel::Debug, LogFormat::Json);
    assert_eq!(logger.format_entry(1, LogLevel::Debug, "x", None).as_deref(), Some(r#"{"level":"debug","msg":"x","ts":1}"#));
}

#[test]
fn credential_tokens_are_redacted() {
    assert_eq!(
        redact_prefixed_tokens("call with token sk-live-secret now", "[redacted]"),
        "call with token [redacted] now"
    );
    assert_eq!(redact_prefixed_tokens("ghp_abc123,xoxb-1.2_3!", "*"), "*,*!");
    assert_eq!(redact_prefixed_tokens("github_pat_X ya29.tok skx", "#"), "# # skx");
    assert_eq!(redact_prefixed_tokens("no secrets here", "#"), "no secrets here");
    assert_eq!(redact_prefixed_tokens("ünïcode sk-é", "#"), "ünïcode #é");
}
