use mcp_probe::json::JsonValue;
use mcp_probe::scenario::{build_diff, format_tool_is_error_detail, normalize_value};
use serde_json::Value;

fn to_json(v: &Value) -> JsonValue {
    match v {
        Value::Null => JsonValue::Null,
        Value::Bool(b) => JsonValue::Bool(*b),
        Value::Number(n) => JsonValue::Number(n.to_string()),
        Value::String(s) => JsonValue::String(s.clone()),
        Value::Array(items) => JsonValue::Array(items.iter().map(to_json).collect()),
        Value::Object(map) => {
            JsonValue::Object(map.iter().map(|(k, v)| (k.clone(), to_json(v))).collect())
        }
    }
}

fn parse(text: &str) -> JsonValue {
    to_json(&serde_json::from_str::<Value>(text).expect("test JSON"))
}

#[test]
fn tool_is_error_detail_includes_serialized_payload_when_available() {
    let payload = parse(r#"{"isError": true, "structuredContent": {"error": {"code": "approval.no_content"}}}"#);
    let detail = format_tool_is_error_detail(Some(&payload));
    assert!(detail.contains("Tool returned isError=true"));
    assert!(detail.contains("approval.no_content"));
    assert_eq!(
        detail,
        r#"Tool returned isError=true: {"isError":true,"structuredContent":{"error":{"code":"approval.no_content"}}}"#
    );
}

#[test]
fn tool_is_error_detail_defaults_when_payload_is_missing() {
    assert_eq!(format_tool_is_error_detail(None), "Tool returned isError=true".to_string());
}

#[test]
fn normalized_values_hide_ignored_paths() {
    let value = parse(r#"{"id": "abc", "items": [1, 2]}"#);
    let out = normalize_value(&value, &["id".to_string()]);
    assert_eq!(out.to_json_text(), r#"{"id":"[ignored]","items":[1,2]}"#);
}

#[test]
fn build_diff_filters_and_reports() {
    let (diffs, detail) = build_diff(&parse(r#"{"a":1,"t":"x"}"#), &parse(r#"{"a":1,"t":"y"}"#), &["t".to_string()]);
    assert!(diffs.is_empty());
    assert!(detail.is_none());
    let (diffs, detail) = build_diff(&parse(r#"{"a":1,"t":"x"}"#), &parse(r#"{"a":2,"t":"y"}"#), &["t".to_string()]);
    assert_eq!(diffs.len(), 1);
    assert_eq!(detail.as_deref(), Some("Differences:\n- $.a: expected 1 got 2"));
}
