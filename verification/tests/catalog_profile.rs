use mcp_probe::catalog_profile::{descriptor_profile_for_catalog_profile, evaluate_catalog_profile};
use mcp_probe::report::{CatalogMethodSummary, CatalogProfile, ProbeStepStatus};
use mcp_probe::schema_compat::ToolDescriptorProfile;

fn method(method: &str, item_count: Option<usize>) -> CatalogMethodSummary {
    CatalogMethodSummary {
        method: method.to_string(),
        status: ProbeStepStatus::Passed,
        detail: Some("ok".to_string()),
        page_count: Some(1),
        item_count,
    }
}

#[test]
fn apps_sdk_ui_requires_resource_templates() {
    let verdict = evaluate_catalog_profile(
        CatalogProfile::AppsSdkUi,
        &[
            method("tools/list", Some(2)),
            method("resources/list", Some(0)),
            CatalogMethodSummary {
                method: "resources/templates/list".to_string(),
                status: ProbeStepStatus::Passed,
                detail: Some("not supported".to_string()),
                page_count: None,
                item_count: None,
            },
            method("prompts/list", Some(0)),
        ],
    );

    assert_eq!(verdict.status, ProbeStepStatus::Error);
    assert!(verdict.findings.iter().any(|finding| {
        finding.contains("resources/templates/list") && finding.contains("not supported")
    }));
}

#[test]
fn codex_deferred_requires_tools_and_pagination_receipt() {
    let verdict = evaluate_catalog_profile(
        CatalogProfile::CodexDeferred,
        &[
            CatalogMethodSummary {
                method: "tools/list".to_string(),
                status: ProbeStepStatus::Passed,
                detail: Some("discovered 3 tools across 2 page(s)".to_string()),
                page_count: Some(2),
                item_count: Some(3),
            },
            method("resources/templates/list", Some(0)),
            method("resources/list", Some(0)),
            method("prompts/list", Some(0)),
        ],
    );

    assert_eq!(verdict.status, ProbeStepStatus::Passed);
    assert!(verdict.requirements.iter().any(|requirement| {
        requirement.name == "tools/list pagination drain"
            && requirement.status == ProbeStepStatus::Passed
    }));
}

#[test]
fn method_failure_detail_is_not_masked_by_non_empty_requirement() {
    let verdict = evaluate_catalog_profile(
        CatalogProfile::CodexDeferred,
        &[
            CatalogMethodSummary {
                method: "tools/list".to_string(),
                status: ProbeStepStatus::Error,
                detail: Some("upstream tool registry failed".to_string()),
                page_count: None,
                item_count: Some(0),
            },
            method("resources/templates/list", Some(0)),
            method("resources/list", Some(0)),
            method("prompts/list", Some(0)),
        ],
    );

    assert_eq!(verdict.status, ProbeStepStatus::Error);
    assert!(verdict.findings.iter().any(|finding| {
        finding.contains("tools/list") && finding.contains("upstream tool registry failed")
    }));
    assert!(!verdict
        .findings
        .iter()
        .any(|finding| finding.contains("method returned no discoverable items")));
}

#[test]
fn raw_profile_passes_with_empty_catalog_and_names_details() {
    let verdict = evaluate_catalog_profile(CatalogProfile::RawMcp, &[method("tools/list", Some(0))]);
    assert_eq!(verdict.status, ProbeStepStatus::Passed);
    assert_eq!(verdict.detail, "catalog profile raw_mcp passed");
    assert_eq!(verdict.requirements.len(), 5);
    assert_eq!(
        verdict.requirements[0].detail.as_deref(),
        Some("uses descriptor_profile=basic")
    );
    assert_eq!(
        verdict.requirements[2].detail.as_deref(),
        Some("method was not captured")
    );
}

#[test]
fn missing_tools_list_fails_every_non_raw_profile() {
    let verdict = evaluate_catalog_profile(CatalogProfile::CodexDeferred, &[]);
    assert_eq!(verdict.status, ProbeStepStatus::Error);
    assert_eq!(
        verdict.findings,
        vec![
            "tools/list: method was not captured".to_string(),
            "tools/list pagination drain: tools/list was not captured".to_string(),
        ]
    );
    assert_eq!(verdict.detail, "catalog profile codex_deferred failed with 2 finding(s)");
}

#[test]
fn pagination_receipt_reports_page_count() {
    let verdict = evaluate_catalog_profile(
        CatalogProfile::CodexDeferred,
        &[CatalogMethodSummary {
            method: "tools/list".to_string(),
            status: ProbeStepStatus::Passed,
            detail: None,
            page_count: Some(12),
            item_count: Some(30),
        }],
    );
    assert_eq!(
        verdict.requirements[2].detail.as_deref(),
        Some("drained 12 tools/list page(s)")
    );
}

#[test]
fn descriptor_profiles_follow_catalog_profiles() {
    assert_eq!(
        descriptor_profile_for_catalog_profile(CatalogProfile::AppsSdkUi),
        ToolDescriptorProfile::AppsSdkUi
    );
    assert_eq!(
        descriptor_profile_for_catalog_profile(CatalogProfile::ChatgptTool),
        ToolDescriptorProfile::ChatgptTool
    );
    assert_eq!(
        descriptor_profile_for_catalog_profile(CatalogProfile::GeminiCli),
        ToolDescriptorProfile::Basic
    );
}
