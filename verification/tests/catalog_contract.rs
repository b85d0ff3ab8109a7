use mcp_probe::catalog_contract::{
    build_catalog_contract_step, effective_descriptor_profile, evaluate_catalog_contract,
    CatalogContractSnapshot, CATALOG_CONTRACT_STEP,
};
use mcp_probe::json::JsonValue;
use mcp_probe::report::{CatalogContract, CatalogContractVerdict, CatalogProfile, ProbeStepStatus};
use mcp_probe::schema_compat::ToolDescriptorProfile;
use mcp_probe::transport::TransportType;
use serde_json::Value;

fn to_json(v: &Value) -> JsonValue {
    match v {
        Value::Null => JsonValue::Null,
        Value::Bool(b) => JsonValue::Bool(*b),
        Value::Number(n) => JsonValue::Number(n.to_string()),
        Value::String(s) => JsonValue::String(s.clone()),
        Value::Array(items) => JsonValue::Array(items.iter().map(to_json).collect()),
        Value::Object(map) => {
            JsonValue::Object(map.iter().map(|(k, v)| (k.clone(), to_json(v))).collect())
        }
    }
}

fn from_json(v: &JsonValue) -> Value {
    match v {
        JsonValue::Null => Value::Null,
        JsonValue::Bool(b) => Value::Bool(*b),
        JsonValue::Number(n) => serde_json::from_str(n).expect("number text"),
        JsonValue::String(s) => Value::String(s.clone()),
        JsonValue::Array(items) => Value::Array(items.iter().map(from_json).collect()),
        JsonValue::Object(entries) => {
            let mut map = serde_json::Map::new();
            for (k, v) in entries {
                map.insert(k.clone(), from_json(v));
            }
            Value::Object(map)
        }
    }
}

fn parse(text: &str) -> JsonValue {
    to_json(&serde_json::from_str::<Value>(text).expect("test JSON"))
}

fn evaluate(contract: &CatalogContract) -> CatalogContractVerdict {
    let tools = parse(
        r#"{"tools": [{"name": "work_items_find"}, {"name": "work_items_create"}, {"name": "work_item_dependency_view"}]}"#,
    );
    let resources = parse(r#"{"resources": [{"uri": "ops://work_item/w4760"}]}"#);
    let resource_templates =
        parse(r#"{"resourceTemplates": [{"uriTemplate": "ops://work_item/{work_item_ref}"}]}"#);
    let prompts = parse(r#"{"prompts": [{"name": "summarize_work_item"}]}"#);
    evaluate_catalog_contract(
        contract,
        CatalogContractSnapshot {
            transport: TransportType::StreamableHttp,
            catalog_profile: Some(CatalogProfile::CodexDeferred),
            descriptor_profile: ToolDescriptorProfile::Basic,
            tools: Some(&tools),
            resources: Some(&resources),
            resource_templates: Some(&resource_templates),
            prompts: Some(&prompts),
        },
    )
}

fn contract(schema_version: u32) -> CatalogContract {
    CatalogContract { schema_version, ..Default::default() }
}

#[test]
fn contract_passes_required_catalog_items() {
    let contract = CatalogContract {
        schema_version: 1,
        transport: Some("streamable-http".to_string()),
        catalog_profile: Some(CatalogProfile::CodexDeferred),
        descriptor_profile: Some("basic".to_string()),
        min_tool_count: Some(3),
        required_tools: vec!["work_items_find".to_string(), "work_item_dependency_view".to_string()],
        required_resource_templates: vec!["ops://work_item/{work_item_ref}".to_string()],
        required_prompts: vec!["summarize_work_item".to_string()],
        ..Default::default()
    };

    let verdict = evaluate(&contract);

    assert_eq!(verdict.status, ProbeStepStatus::Passed);
    assert!(verdict.findings.is_empty());
    assert!(verdict.requirements.iter().any(|requirement| requirement.name == "required_tools"));
    assert!(verdict.actual_fingerprint.starts_with("fnv1a64:"));
}

#[test]
fn contract_reports_missing_required_tools() {
    let contract = CatalogContract {
        schema_version: 1,
        required_tools: vec!["work_items_find".to_string(), "apply_link_commands_bundle".to_string()],
        ..Default::default()
    };

    let verdict = evaluate(&contract);

    assert_eq!(verdict.status, ProbeStepStatus::Error);
    assert!(verdict.findings.iter().any(|finding| finding.contains("apply_link_commands_bundle")));
}

#[test]
fn contract_reports_fingerprint_mismatch() {
    let contract = CatalogContract {
        schema_version: 1,
        catalog_fingerprint: Some("fnv1a64:0000000000000000".to_string()),
        ..Default::default()
    };

    let verdict = evaluate(&contract);

    assert_eq!(verdict.status, ProbeStepStatus::Error);
    assert!(verdict.findings.iter().any(|finding| finding.contains("catalog_fingerprint")));
}

#[test]
fn fingerprint_of_sample_catalog_is_fnv1a64_of_sorted_identifiers() {
    let verdict = evaluate(&contract(1));
    assert_eq!(verdict.actual_fingerprint, "fnv1a64:c3a81e41d6bf8884");
    assert_eq!(verdict.status, ProbeStepStatus::Passed);
    assert_eq!(verdict.detail, "catalog contract passed");
}

#[test]
fn fingerprint_of_empty_catalog() {
    let verdict = evaluate_catalog_contract(
        &contract(1),
        CatalogContractSnapshot {
            transport: TransportType::Stdio,
            catalog_profile: None,
            descriptor_profile: ToolDescriptorProfile::Basic,
            tools: None,
            resources: None,
            resource_templates: None,
            prompts: None,
        },
    );
    assert_eq!(verdict.actual_fingerprint, "fnv1a64:22bf25cb38a79e5c");
}

#[test]
fn matching_fingerprint_passes() {
    let contract = CatalogContract {
        schema_version: 1,
        catalog_fingerprint: Some("fnv1a64:c3a81e41d6bf8884".to_string()),
        ..Default::default()
    };
    let verdict = evaluate(&contract);
    assert_eq!(verdict.status, ProbeStepStatus::Passed);
    let req = verdict.requirements.iter().find(|r| r.name == "catalog_fingerprint").unwrap();
    assert_eq!(req.detail, "catalog_fingerprint matched");
}

#[test]
fn unsupported_schema_version_is_a_finding() {
    let verdict = evaluate(&contract(2));
    assert_eq!(verdict.status, ProbeStepStatus::Error);
    assert_eq!(verdict.findings, vec!["schema_version: unsupported catalog contract schema_version 2".to_string()]);
    assert_eq!(verdict.detail, "catalog contract failed with 1 finding(s)");
}

#[test]
fn transport_profile_and_descriptor_mismatches() {
    let contract = CatalogContract {
        schema_version: 1,
        transport: Some("stdio".to_string()),
        catalog_profile: Some(CatalogProfile::GeminiCli),
        descriptor_profile: Some("bogus".to_string()),
        ..Default::default()
    };
    let verdict = evaluate(&contract);
    assert_eq!(
        verdict.findings,
        vec![
            "transport: expected transport stdio, observed streamable-http".to_string(),
            "catalog_profile: expected catalog_profile gemini_cli, observed codex_deferred".to_string(),
            format!("descriptor_profile: {}", ToolDescriptorProfile::parse("bogus").unwrap_err()),
        ]
    );
}

#[test]
fn count_requirements_report_expected_and_minimum() {
    let contract = CatalogContract {
        schema_version: 1,
        expected_tool_count: Some(2),
        min_resource_count: Some(2),
        expected_prompt_count: Some(1),
        min_resource_template_count: Some(1),
        ..Default::default()
    };
    let verdict = evaluate(&contract);
    assert_eq!(
        verdict.findings,
        vec![
            "tools.expected_count: expected 2 tools, observed 3".to_string(),
            "resources.min_count: expected at least 2 resources, observed 1".to_string(),
        ]
    );
    let names: Vec<&str> = verdict.requirements.iter().map(|r| r.name.as_str()).collect();
    assert_eq!(
        names,
        vec![
            "schema_version",
            "tools.expected_count",
            "resources.min_count",
            "resource_templates.min_count",
            "prompts.expected_count",
        ]
    );
}

#[test]
fn missing_identifiers_are_listed_in_order() {
    let contract = CatalogContract {
        schema_version: 1,
        required_prompts: vec!["b".to_string(), "summarize_work_item".to_string(), "a".to_string()],
        ..Default::default()
    };
    let verdict = evaluate(&contract);
    assert_eq!(verdict.findings, vec!["required_prompts: missing 2 required_prompts: b, a".to_string()]);
}

#[test]
fn effective_profile_prefers_the_explicit_one() {
    assert_eq!(
        effective_descriptor_profile(Some(ToolDescriptorProfile::Basic), Some(CatalogProfile::AppsSdkUi)),
        ToolDescriptorProfile::Basic
    );
    assert_eq!(effective_descriptor_profile(None, None), ToolDescriptorProfile::Basic);
}

#[test]
fn contract_step_carries_the_verdict() {
    let contract = CatalogContract {
        schema_version: 1,
        min_tool_count: Some(3),
        required_tools: vec!["work_items_find".to_string()],
        ..Default::default()
    };
    let verdict = evaluate(&contract);
    let step = build_catalog_contract_step(&verdict);
    assert_eq!(step.name, CATALOG_CONTRACT_STEP);
    assert_eq!(step.status, ProbeStepStatus::Passed);
    assert_eq!(step.detail.as_deref(), Some("catalog contract passed"));
    let data = from_json(step.data.as_ref().unwrap());
    assert_eq!(data["status"], "ok");
    assert_eq!(data["schema_version"], 1);
    assert_eq!(data["actual_fingerprint"], "fnv1a64:c3a81e41d6bf8884");
    assert_eq!(data["contract"]["min_tool_count"], 3);
    assert_eq!(data["contract"]["required_tools"][0], "work_items_find");
    assert!(data["contract"].get("transport").is_none());
    assert_eq!(data["requirements"][1]["name"], "tools.min_count");
    assert_eq!(data["requirements"][1]["expected"], 3);
    assert_eq!(data["requirements"][1]["actual"], 3);
    assert_eq!(data["findings"], Value::Array(vec![]));
}

#[test]
fn fingerprint_ignores_order_repeats_and_padding() {
    let tools = parse(
        r#"{"tools": [{"name": " work_item_dependency_view "}, {"name": "work_items_create"}, {"name": "work_items_find"}, {"name": "work_items_create"}]}"#,
    );
    let resources = parse(r#"{"resources": [{"uri": "ops://work_item/w4760"}, {"uri": "ops://work_item/w4760"}]}"#);
    let resource_templates =
        parse(r#"{"resourceTemplates": [{"uriTemplate": "ops://work_item/{work_item_ref}"}]}"#);
    let prompts = parse(r#"{"prompts": [{"name": "summarize_work_item"}]}"#);
    let verdict = evaluate_catalog_contract(
        &contract(1),
        CatalogContractSnapshot {
            transport: TransportType::StreamableHttp,
            catalog_profile: Some(CatalogProfile::CodexDeferred),
            descriptor_profile: ToolDescriptorProfile::Basic,
            tools: Some(&tools),
            resources: Some(&resources),
            resource_templates: Some(&resource_templates),
            prompts: Some(&prompts),
        },
    );
    assert_eq!(verdict.actual_fingerprint, evaluate(&contract(1)).actual_fingerprint);
}

#[test]
fn json_text_matches_serde_json() {
    let text = r#"{"a":[1,2.5,-3e2,null,true,false],"b":"quote \" backslash \\ tab \t nl \n ctl \u0001 é ☃","c":{"d":[]}}"#;
    let value: Value = serde_json::from_str(text).expect("test JSON");
    let ours = to_json(&value).to_json_text();
    assert_eq!(ours, serde_json::to_string(&value).expect("serialize"));
}
