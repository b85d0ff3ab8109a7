use mcp_probe::json::JsonValue;
use mcp_probe::scenario::compare::{
    apply_redactions, diff_objects, filter_diff_entries, format_diff, parse_path, parse_pattern,
    path_to_string, resolve_ignore_patterns, DiffKind, PathToken, PatternToken,
};
use serde_json::Value;

fn to_json(v: &Value) -> JsonValue {
    match v {
        Value::Null => JsonValue::Null,
        Value::Bool(b) => JsonValue::Bool(*b),
        Value::Number(n) => JsonValue::Number(n.to_string()),
        Value::String(s) => JsonValue::String(s.clone()),
        Value::Array(items) => JsonValue::Array(items.iter().map(to_json).collect()),
        Value::Object(map) => {
            JsonValue::Object(map.iter().map(|(k, v)| (k.clone(), to_json(v))).collect())
        }
    }
}

fn from_json(v: &JsonValue) -> Value {
    match v {
        JsonValue::Null => Value::Null,
        JsonValue::Bool(b) => Value::Bool(*b),
        JsonValue::Number(n) => serde_json::from_str(n).expect("number text"),
        JsonValue::String(s) => Value::String(s.clone()),
        JsonValue::Array(items) => Value::Array(items.iter().map(from_json).collect()),
        JsonValue::Object(entries) => {
            let mut map = serde_json::Map::new();
            for (k, v) in entries {
                map.insert(k.clone(), from_json(v));
            }
            Value::Object(map)
        }
    }
}

fn parse(text: &str) -> JsonValue {
    to_json(&serde_json::from_str::<Value>(text).expect("test JSON"))
}

fn strings(items: &[&str]) -> Vec<String> {
    items.iter().map(|s| s.to_string()).collect()
}

#[test]
fn path_text_uses_dots_and_brackets() {
    assert_eq!(path_to_string(&[]), "$");
    let path = vec![PathToken::Key("b".into()), PathToken::Index(12), PathToken::Key("c".into())];
    assert_eq!(path_to_string(&path), "$.b[12].c");
}

#[test]
fn patterns_parse_keys_indexes_and_wildcards() {
    let tokens = parse_pattern("list[*].id");
    assert!(matches!(tokens.as_slice(), [PatternToken::Key(a), PatternToken::Wildcard, PatternToken::Key(b)] if a == "list" && b == "id"));
    let tokens = parse_pattern("a[3][name].*");
    assert!(matches!(tokens.as_slice(), [PatternToken::Key(a), PatternToken::Index(3), PatternToken::Key(n), PatternToken::Wildcard] if a == "a" && n == "name"));
    let tokens = parse_pattern("x[]");
    assert!(matches!(tokens.as_slice(), [PatternToken::Key(_), PatternToken::Wildcard]));
}

#[test]
fn paths_read_back_from_text() {
    let tokens = parse_path("$.b[1].c");
    assert!(matches!(tokens.as_slice(), [PathToken::Key(b), PathToken::Index(1), PathToken::Key(c)] if b == "b" && c == "c"));
    let tokens = parse_path("$[x]");
    assert!(matches!(tokens.as_slice(), [PathToken::Key(x)] if x == "x"));
}

#[test]
fn redactions_replace_matching_values() {
    let value = parse(r#"{"a":{"token":"s","keep":1},"list":[{"id":1,"n":"x"},{"id":2}]}"#);
    let out = apply_redactions(value, &strings(&["a.token", " list[*].id ", ""]));
    assert_eq!(
        from_json(&out),
        serde_json::from_str::<Value>(
            r#"{"a":{"token":"[ignored]","keep":1},"list":[{"id":"[ignored]","n":"x"},{"id":"[ignored]"}]}"#
        )
        .unwrap()
    );
}

#[test]
fn redaction_without_patterns_is_identity_and_twice_is_once() {
    let value = parse(r#"{"a":[1,{"b":2}],"c":null}"#);
    let same = apply_redactions(parse(r#"{"a":[1,{"b":2}],"c":null}"#), &[]);
    assert_eq!(from_json(&same), from_json(&value));
    let patterns = strings(&["a[1]", "c"]);
    let once = apply_redactions(parse(r#"{"a":[1,{"b":2}],"c":null}"#), &patterns);
    let twice = apply_redactions(apply_redactions(value, &patterns), &patterns);
    assert_eq!(from_json(&once), from_json(&twice));
    assert_eq!(from_json(&once), serde_json::from_str::<Value>(r#"{"a":[1,"[ignored]"],"c":"[ignored]"}"#).unwrap());
}

#[test]
fn whole_document_pattern_redacts_root_children() {
    let out = apply_redactions(parse(r#"{"a":1,"b":[2]}"#), &strings(&["*"]));
    assert_eq!(from_json(&out), serde_json::from_str::<Value>(r#"{"a":"[ignored]","b":"[ignored]"}"#).unwrap());
}

#[test]
fn diff_reports_changed_missing_and_extra_values() {
    let expected = parse(r#"{"a":1,"b":[1,2],"c":"x"}"#);
    let actual = parse(r#"{"a":2,"b":[1],"d":null}"#);
    let diffs = diff_objects(&expected, &actual);
    let paths: Vec<&str> = diffs.iter().map(|d| d.path.as_str()).collect();
    assert_eq!(paths, vec!["$.a", "$.b[1]", "$.c", "$.d"]);
    assert!(diffs[0].kind.is_none());
    assert_eq!(diffs[1].kind, Some(DiffKind::MissingActual));
    assert_eq!(diffs[2].kind, Some(DiffKind::MissingActual));
    assert_eq!(diffs[3].kind, Some(DiffKind::MissingExpected));
    assert_eq!(from_json(&diffs[1].expected), Value::from(2));
    assert_eq!(
        format_diff(&diffs).unwrap(),
        "Differences:\n- $.a: expected 1 got 2\n- $.b[1]: expected 2 got [missing]\n- $.c: expected \"x\" got [missing]\n- $.d: expected [missing] got null"
    );
}

#[test]
fn equal_documents_have_no_diff() {
    let a = parse(r#"{"x":[1,{"y":"z"}],"w":true}"#);
    let b = parse(r#"{"w":true,"x":[1,{"y":"z"}]}"#);
    let diffs = diff_objects(&a, &b);
    assert!(diffs.is_empty());
    assert!(format_diff(&diffs).is_none());
}

#[test]
fn diff_of_type_change_reports_both_values() {
    let diffs = diff_objects(&parse(r#"{"a":[1]}"#), &parse(r#"{"a":{"k":[true]}}"#));
    assert_eq!(diffs.len(), 1);
    assert_eq!(
        format_diff(&diffs).unwrap(),
        "Differences:\n- $.a: expected [1] got {\"k\":[true]}"
    );
}

#[test]
fn filtering_drops_ignored_paths() {
    let diffs = diff_objects(&parse(r#"{"a":1,"b":[1,2]}"#), &parse(r#"{"a":2,"b":[1]}"#));
    let kept = filter_diff_entries(diffs, &strings(&["b"]));
    assert_eq!(kept.len(), 1);
    assert_eq!(kept[0].path, "$.a");
    let diffs = diff_objects(&parse(r#"{"a":1}"#), &parse(r#"{"a":2}"#));
    assert_eq!(filter_diff_entries(diffs, &[]).len(), 1);
}

#[test]
fn ignore_pattern_lists_merge_trimmed() {
    let base = strings(&[" a ", ""]);
    let extra = strings(&["  ", "b"]);
    assert_eq!(resolve_ignore_patterns(Some(&base), Some(&extra)), vec!["a".to_string(), "b".to_string()]);
    assert!(resolve_ignore_patterns(None, None).is_empty());
}

#[test]
fn json_text_matches_serde_serialization() {
    let text = r#"{"a":"q\"b\\n\n\t\u0001\u001f\u0008\u000c","b":[1,2.5,-3,null,true],"c":{}}"#;
    let value: Value = serde_json::from_str(text).unwrap();
    assert_eq!(to_json(&value).to_json_text(), serde_json::to_string(&value).unwrap());
}
