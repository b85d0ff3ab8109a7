use mcp_probe::json::JsonValue;
use mcp_probe::report::ProbeStepStatus;
use mcp_probe::scenario::evaluate_step;

fn obj(members: Vec<(&str, JsonValue)>) -> JsonValue {
    JsonValue::Object(members.into_iter().map(|(k, v)| (k.to_string(), v)).collect())
}

fn num(n: &str) -> JsonValue {
    JsonValue::Number(n.to_string())
}

#[test]
fn step_passes_when_values_match() {
    let actual = obj(vec![("a", num("1")), ("id", num("7"))]);
    let expect = obj(vec![("a", num("1")), ("id", num("9"))]);
    let ignore = vec!["id".to_string()];
    let v = evaluate_step(None, Some(&actual), Some(&expect), None, None, false, false, None, &ignore);
    assert_eq!(v.status, ProbeStepStatus::Passed);
    assert!(v.diff.is_empty());
    assert_eq!(v.detail, None);
}

#[test]
fn step_fails_on_difference_and_rewrites_snapshot_when_asked() {
    let actual = obj(vec![("a", num("2"))]);
    let expect = obj(vec![("a", num("1"))]);
    let v = evaluate_step(None, Some(&actual), Some(&expect), None, None, false, false, None, &[]);
    assert_eq!(v.status, ProbeStepStatus::Error);
    assert_eq!(v.diff.len(), 1);
    assert!(v.detail.is_some());
    let stored = obj(vec![("a", num("1"))]);
    let w = evaluate_step(None, Some(&actual), None, Some("k"), Some(&stored), true, false, None, &[]);
    assert_eq!(w.status, ProbeStepStatus::Passed);
    assert_eq!(w.detail.as_deref(), Some("Snapshot updated"));
    assert_eq!(w.snapshot_store.unwrap().to_json_text(), "{\"a\":2}");
}

#[test]
fn missing_snapshot_is_reported_or_written() {
    let actual = obj(vec![("a", num("2"))]);
    let v = evaluate_step(None, Some(&actual), None, Some("step-1"), None, false, false, None, &[]);
    assert_eq!(v.status, ProbeStepStatus::Error);
    assert_eq!(v.detail.as_deref(), Some("Missing snapshot for step-1"));
    let w = evaluate_step(None, Some(&actual), None, Some("step-1"), None, true, false, None, &[]);
    assert_eq!(w.status, ProbeStepStatus::Passed);
    assert_eq!(w.snapshot_store.unwrap().to_json_text(), "{\"a\":2}");
}

#[test]
fn expected_errors_are_checked() {
    let v = evaluate_step(None, None, None, None, None, false, true, None, &[]);
    assert_eq!(v.status, ProbeStepStatus::Error);
    assert_eq!(v.detail.as_deref(), Some("Expected tool call to fail but it succeeded"));
    let e = evaluate_step(Some("boom: denied".to_string()), None, None, None, None, false, true, Some("denied"), &[]);
    assert_eq!(e.status, ProbeStepStatus::Passed);
    let m = evaluate_step(Some("boom".to_string()), None, None, None, None, false, true, Some("denied"), &[]);
    assert_eq!(m.status, ProbeStepStatus::Error);
    assert_eq!(m.detail.as_deref(), Some("Expected error containing \"denied\""));
    let f = evaluate_step(Some("boom".to_string()), None, None, None, None, false, false, None, &[]);
    assert_eq!(f.status, ProbeStepStatus::Error);
    assert_eq!(f.detail.as_deref(), Some("boom"));
    let n = evaluate_step(None, Some(&num("1")), None, None, None, false, false, None, &[]);
    assert_eq!(n.detail.as_deref(), Some("No assertion provided"));
}

#[test]
fn call_step_reports_the_verdict_with_sorted_data() {
    let actual = obj(vec![("a", num("2"))]);
    let expect = obj(vec![("a", num("1"))]);
    let v = evaluate_step(None, Some(&actual), Some(&expect), Some("k"), None, false, false, None, &[]);
    let step = mcp_probe::scenario::call_step(
        "lookup",
        "search",
        obj(vec![("q", JsonValue::String("x".to_string()))]),
        &v,
        Some("k"),
        &[],
        false,
        &None,
    );
    assert_eq!(step.name, "tool.lookup");
    assert_eq!(step.status, ProbeStepStatus::Error);
    let data = step.data.expect("data");
    let keys: Vec<String> = match &data {
        JsonValue::Object(entries) => entries.iter().map(|(k, _)| k.clone()).collect(),
        _ => vec![],
    };
    assert!(keys.windows(2).all(|w| w[0] < w[1]));
    for k in ["actual", "diff", "expected", "input", "snapshot_key", "snapshot_written", "tool"] {
        assert!(keys.iter().any(|x| x == k), "missing {k}");
    }
    assert!(!keys.iter().any(|x| x == "error" || x == "expect_error" || x == "ignore_paths"));
    let diff = data.get("diff").expect("diff");
    match diff {
        JsonValue::Array(items) => {
            assert_eq!(items.len(), 1);
            assert_eq!(items[0].get("path").and_then(|p| p.as_str()), Some("$.a"));
        }
        _ => panic!("diff is an array"),
    }
    assert_eq!(data.get("tool").and_then(|t| t.as_str()), Some("search"));
}
