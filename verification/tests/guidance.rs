use mcp_probe::guidance::{
    add_hint, build_common_guidance_from_error, build_common_guidance_from_report,
    format_failure_summary, format_guidance,
};
use mcp_probe::report::{ProbeStep, ProbeStepStatus};

fn step(name: &str, status: ProbeStepStatus, detail: Option<&str>) -> ProbeStep {
    ProbeStep {
        name: name.to_string(),
        status,
        detail: detail.map(|d| d.to_string()),
        data: None,
    }
}

#[test]
fn error_hints_follow_rule_order() {
    let hints = build_common_guidance_from_error("Transport closed: AUTH.MISSING_TOKEN");
    assert_eq!(hints.len(), 2);
    assert!(hints[0].starts_with("Auth required:"));
    assert!(hints[1].starts_with("Transport closed often means"));
    let none = build_common_guidance_from_error("all good");
    assert!(none.is_empty());
    let url = build_common_guidance_from_error("Malformed target URL");
    assert_eq!(url.len(), 1);
    assert!(url[0].starts_with("Malformed URL:"));
}

#[test]
fn report_hints_use_step_details_and_names() {
    let steps = vec![
        step("auth.oauth.fetch", ProbeStepStatus::Error, Some("HTTP 404")),
        step("tools.schema_compatibility", ProbeStepStatus::Error, None),
        step("connect", ProbeStepStatus::Error, Some("issuer does not match")),
    ];
    let hints = build_common_guidance_from_report(&steps);
    assert_eq!(hints.len(), 3);
    assert!(hints[0].starts_with("PRM discovery failed (404)."));
    assert!(hints[1].starts_with("Issuer mismatch:"));
    assert!(hints[2].starts_with("Tool schema compatibility failed:"));
}

#[test]
fn hints_are_not_duplicated() {
    let mut hints = vec!["a".to_string()];
    add_hint(&mut hints, "a");
    add_hint(&mut hints, "b");
    assert_eq!(hints, vec!["a".to_string(), "b".to_string()]);
}

#[test]
fn guidance_is_a_bullet_list() {
    assert_eq!(format_guidance(&[]), None);
    assert_eq!(
        format_guidance(&["one".to_string(), "two".to_string()]),
        Some("Hints:\n- one\n- two".to_string())
    );
}

#[test]
fn failure_summary_limits_and_counts() {
    let steps = vec![
        step("a", ProbeStepStatus::Error, Some("boom")),
        step("b", ProbeStepStatus::Passed, None),
        step("c", ProbeStepStatus::Error, None),
        step("d", ProbeStepStatus::Error, Some("x")),
    ];
    assert_eq!(
        format_failure_summary(&steps, 2),
        Some(
            "Failures:\n- a: boom\n- c\n- ...and 1 more\nSee structuredContent.report.steps for full details."
                .to_string()
        )
    );
    assert_eq!(format_failure_summary(&steps[1..2], 5), None);
}
