use mcp_probe::catalog_profile::{build_catalog_profile_step, CATALOG_PROFILE_STEP};
use mcp_probe::report::{
    CatalogProfile, CatalogProfileRequirement, CatalogProfileVerdict, ProbeStepStatus,
};

#[test]
fn catalog_profile_step_carries_the_verdict() {
    let verdict = CatalogProfileVerdict {
        profile: CatalogProfile::CodexDeferred,
        status: ProbeStepStatus::Error,
        detail: "1 requirement failed".to_string(),
        requirements: vec![CatalogProfileRequirement {
            name: "tools/list".to_string(),
            required: true,
            status: ProbeStepStatus::Error,
            detail: None,
            item_count: Some(0),
        }],
        findings: vec!["tools/list returned no tools".to_string()],
    };
    let step = build_catalog_profile_step(&verdict);
    assert_eq!(step.name, CATALOG_PROFILE_STEP);
    assert_eq!(step.status, ProbeStepStatus::Error);
    assert_eq!(step.detail.as_deref(), Some("1 requirement failed"));
    let data = step.data.expect("data");
    assert_eq!(
        data.to_json_text(),
        "{\"detail\":\"1 requirement failed\",\"findings\":[\"tools/list returned no tools\"],\"profile\":\"codex_deferred\",\"requirements\":[{\"item_count\":0,\"name\":\"tools/list\",\"required\":true,\"status\":\"error\"}],\"status\":\"error\"}"
    );
}
