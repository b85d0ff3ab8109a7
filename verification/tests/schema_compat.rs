use mcp_probe::json::JsonValue;
use mcp_probe::report::{ProbeStep, ProbeStepStatus, ToolSchemaCompatibilityFinding, ToolSchemaCompatibilitySeverity};
use mcp_probe::schema_compat::{
    audit_tool_schema_compatibility, audit_tool_schema_compatibility_for_profile,
    build_tool_schema_compatibility_step, build_tool_schema_compatibility_step_for_profile,
    camel_to_snake, escape_json_pointer, ToolDescriptorProfile, APPS_SDK_UI_HINT,
    ARRAY_ITEMS_NOT_OBJECT_HINT, TOOL_ONLY_UI_HINT,
};
use serde_json::Value;

fn parse(text: &str) -> Value {
    serde_json::from_str(text).expect("test JSON")
}

fn to_json(v: &Value) -> JsonValue {
    match v {
        Value::Null => JsonValue::Null,
        Value::Bool(b) => JsonValue::Bool(*b),
        Value::Number(n) => JsonValue::Number(n.to_string()),
        Value::String(s) => JsonValue::String(s.clone()),
        Value::Array(items) => JsonValue::Array(items.iter().map(to_json).collect()),
        Value::Object(map) => {
            JsonValue::Object(map.iter().map(|(k, v)| (k.clone(), to_json(v))).collect())
        }
    }
}

fn from_json(v: &JsonValue) -> Value {
    match v {
        JsonValue::Null => Value::Null,
        JsonValue::Bool(b) => Value::Bool(*b),
        JsonValue::Number(n) => serde_json::from_str(n).expect("number text"),
        JsonValue::String(s) => Value::String(s.clone()),
        JsonValue::Array(items) => Value::Array(items.iter().map(from_json).collect()),
        JsonValue::Object(entries) => {
            let mut map = serde_json::Map::new();
            for (k, v) in entries {
                map.insert(k.clone(), from_json(v));
            }
            Value::Object(map)
        }
    }
}

fn finding_value(f: &ToolSchemaCompatibilityFinding) -> Value {
    let mut map = serde_json::Map::new();
    let severity = match f.severity {
        ToolSchemaCompatibilitySeverity::Error => "error",
        ToolSchemaCompatibilitySeverity::Warning => "warning",
    };
    map.insert("severity".into(), Value::String(severity.into()));
    map.insert("code".into(), Value::String(f.code.clone()));
    map.insert("tool_name".into(), Value::String(f.tool_name.clone()));
    map.insert("schema_path".into(), Value::String(f.schema_path.clone()));
    map.insert("message".into(), Value::String(f.message.clone()));
    map.insert("hint".into(), Value::String(f.hint.clone()));
    if let Some(fragment) = &f.fragment {
        map.insert("fragment".into(), from_json(fragment));
    }
    Value::Object(map)
}

fn findings_value(fs: &[ToolSchemaCompatibilityFinding]) -> Value {
    Value::Array(fs.iter().map(finding_value).collect())
}

fn step_value(step: &ProbeStep) -> Value {
    let mut map = serde_json::Map::new();
    map.insert("name".into(), Value::String(step.name.clone()));
    let status = match step.status {
        ProbeStepStatus::Passed => "ok",
        ProbeStepStatus::Error => "error",
    };
    map.insert("status".into(), Value::String(status.into()));
    if let Some(detail) = &step.detail {
        map.insert("detail".into(), Value::String(detail.clone()));
    }
    if let Some(data) = &step.data {
        map.insert("data".into(), from_json(data));
    }
    Value::Object(map)
}

fn chatgpt_tool_descriptor() -> Value {
    parse(
        r#"{
            "name": "work_items_read",
            "inputSchema": {
                "type": "object",
                "properties": {
                    "work_item_refs": {
                        "type": "array",
                        "items": { "type": "object", "properties": { "ref": { "type": "string" } } }
                    }
                }
            },
            "outputSchema": {
                "type": "object",
                "properties": {
                    "items": {
                        "type": "array",
                        "items": { "type": "object", "properties": { "ref": { "type": "string" } } }
                    }
                }
            },
            "annotations": {
                "title": "Work Items Read",
                "readOnlyHint": true,
                "destructiveHint": false
            },
            "_meta": {
                "securitySchemes": [{ "type": "oauth2", "scopes": ["ops:read"] }],
                "openai/toolInvocation/invoking": "Reading work items",
                "openai/toolInvocation/invoked": "Read work items",
                "openai/widgetAccessible": false,
                "ui": { "visibility": ["model"] }
            }
        }"#,
    )
}

fn tools_of(descriptor: Value) -> JsonValue {
    let mut map = serde_json::Map::new();
    map.insert("tools".into(), Value::Array(vec![descriptor]));
    to_json(&Value::Object(map))
}

fn ok_step() -> Value {
    parse(r#"{ "name": "tools.schema_compatibility", "status": "ok" }"#)
}

#[test]
fn flags_boolean_array_items_from_tools_list() {
    let step = build_tool_schema_compatibility_step(&to_json(&parse(
        r#"{
            "tools": [{
                "name": "work_items_read",
                "inputSchema": {
                    "type": "object",
                    "properties": {
                        "work_item_refs": { "type": "array", "items": true }
                    }
                }
            }]
        }"#,
    )));
    let mut expected = parse(
        r#"{
            "name": "tools.schema_compatibility",
            "status": "error",
            "detail": "1 tool schema compatibility error(s); see data.findings",
            "data": {
                "error_count": 1,
                "warning_count": 0,
                "findings": [{
                    "severity": "error",
                    "code": "array_items_not_object",
                    "tool_name": "work_items_read",
                    "schema_path": "/tools/0/inputSchema/properties/work_item_refs/items",
                    "message": "Array schema `items` is not an object schema.",
                    "hint": "",
                    "fragment": true
                }]
            }
        }"#,
    );
    expected["data"]["findings"][0]["hint"] = Value::String(ARRAY_ITEMS_NOT_OBJECT_HINT.into());
    assert_eq!(step_value(&step), expected);
}

#[test]
fn flags_array_union_branch_with_missing_items() {
    let findings = audit_tool_schema_compatibility(&to_json(&parse(
        r#"{
            "tools": [{
                "name": "work_item_create",
                "inputSchema": {
                    "anyOf": [
                        { "type": "array" },
                        { "type": "object", "properties": {} }
                    ]
                }
            }]
        }"#,
    )));
    let mut expected = parse(
        r#"[{
            "severity": "error",
            "code": "array_items_missing",
            "tool_name": "work_item_create",
            "schema_path": "/tools/0/inputSchema/anyOf/0/items",
            "message": "Array schema is missing `items`.",
            "hint": "",
            "fragment": { "type": "array" }
        }]"#,
    );
    expected[0]["hint"] = Value::String(ARRAY_ITEMS_NOT_OBJECT_HINT.into());
    assert_eq!(findings_value(&findings), expected);
}

#[test]
fn flags_initial_links_array_branch_with_boolean_items() {
    let findings = audit_tool_schema_compatibility(&to_json(&parse(
        r#"{
            "tools": [{
                "name": "work_item_create",
                "inputSchema": {
                    "type": "object",
                    "properties": {
                        "initial_links": {
                            "anyOf": [
                                { "type": "array", "items": true },
                                { "type": "object", "properties": { "relation": { "type": "string" } } }
                            ]
                        }
                    }
                }
            }]
        }"#,
    )));
    let mut expected = parse(
        r#"[{
            "severity": "error",
            "code": "array_items_not_object",
            "tool_name": "work_item_create",
            "schema_path": "/tools/0/inputSchema/properties/initial_links/anyOf/0/items",
            "message": "Array schema `items` is not an object schema.",
            "hint": "",
            "fragment": true
        }]"#,
    );
    expected[0]["hint"] = Value::String(ARRAY_ITEMS_NOT_OBJECT_HINT.into());
    assert_eq!(findings_value(&findings), expected);
}

#[test]
fn accepts_object_array_items_and_refs() {
    let step = build_tool_schema_compatibility_step(&to_json(&parse(
        r##"{
            "tools": [{
                "name": "work_item_create",
                "inputSchema": {
                    "type": "object",
                    "properties": {
                        "initial_links": {
                            "anyOf": [
                                { "type": "object", "properties": {} },
                                { "type": "array", "items": { "$ref": "#/$defs/InitialLinkArgItem" } }
                            ]
                        }
                    },
                    "$defs": {
                        "InitialLinkArgItem": {
                            "type": "object",
                            "properties": { "relation": { "type": "string" } }
                        }
                    }
                }
            }]
        }"##,
    )));
    assert_eq!(step_value(&step), ok_step());
}

#[test]
fn basic_profile_does_not_require_chatgpt_descriptor_metadata() {
    let findings = audit_tool_schema_compatibility_for_profile(
        &to_json(&parse(
            r#"{ "tools": [{ "name": "plain_tool", "inputSchema": { "type": "object", "properties": {} } }] }"#,
        )),
        ToolDescriptorProfile::Basic,
    );
    assert!(findings.is_empty());
}

#[test]
fn chatgpt_tool_profile_flags_missing_descriptor_metadata() {
    let findings = audit_tool_schema_compatibility_for_profile(
        &to_json(&parse(
            r#"{ "tools": [{ "name": "plain_tool", "inputSchema": { "type": "object", "properties": {} } }] }"#,
        )),
        ToolDescriptorProfile::ChatgptTool,
    );
    let codes: Vec<&str> = findings.iter().map(|finding| finding.code.as_str()).collect();
    assert_eq!(codes, vec!["output_schema_missing", "annotations_missing", "_meta_missing"]);
}

#[test]
fn chatgpt_tool_profile_accepts_ops_style_tool_only_descriptor() {
    let step = build_tool_schema_compatibility_step_for_profile(
        &tools_of(chatgpt_tool_descriptor()),
        ToolDescriptorProfile::ChatgptTool,
    );
    assert_eq!(step_value(&step), ok_step());
}

#[test]
fn chatgpt_tool_profile_accepts_tool_only_descriptor_defaults() {
    let mut descriptor = chatgpt_tool_descriptor();
    let meta = descriptor["_meta"].as_object_mut().expect("_meta object");
    meta.remove("openai/widgetAccessible");
    meta.remove("ui");
    let step = build_tool_schema_compatibility_step_for_profile(
        &tools_of(descriptor),
        ToolDescriptorProfile::ChatgptTool,
    );
    assert_eq!(step_value(&step), ok_step());
}

#[test]
fn chatgpt_tool_profile_rejects_widget_access_without_ui_template() {
    let mut descriptor = chatgpt_tool_descriptor();
    let meta = descriptor["_meta"].as_object_mut().expect("_meta object");
    meta.insert("openai/widgetAccessible".to_string(), Value::Bool(true));
    let findings = audit_tool_schema_compatibility_for_profile(
        &tools_of(descriptor),
        ToolDescriptorProfile::ChatgptTool,
    );
    let mut expected = parse(
        r#"[{
            "severity": "error",
            "code": "widget_accessible_true_for_tool_only",
            "tool_name": "work_items_read",
            "schema_path": "/tools/0/_meta/openai~1widgetAccessible",
            "message": "Tool-only descriptor enables widget-originated tool calls without an Apps SDK UI template.",
            "hint": "",
            "fragment": true
        }]"#,
    );
    expected[0]["hint"] = Value::String(TOOL_ONLY_UI_HINT.into());
    assert_eq!(findings_value(&findings), expected);
}

#[test]
fn apps_sdk_ui_profile_requires_a_ui_template() {
    let findings = audit_tool_schema_compatibility_for_profile(
        &tools_of(chatgpt_tool_descriptor()),
        ToolDescriptorProfile::AppsSdkUi,
    );
    let codes: Vec<&str> = findings.iter().map(|finding| finding.code.as_str()).collect();
    assert_eq!(codes, vec!["apps_sdk_ui_template_missing"]);
}

#[test]
fn apps_sdk_ui_profile_accepts_openai_output_template_descriptor() {
    let mut descriptor = chatgpt_tool_descriptor();
    let meta = descriptor["_meta"].as_object_mut().expect("_meta object");
    meta.insert(
        "openai/outputTemplate".to_string(),
        Value::String("ui://widget/work-items.html".to_string()),
    );
    meta.insert("openai/widgetAccessible".to_string(), Value::Bool(true));
    meta.remove("ui");
    let step = build_tool_schema_compatibility_step_for_profile(
        &tools_of(descriptor),
        ToolDescriptorProfile::AppsSdkUi,
    );
    assert_eq!(step_value(&step), ok_step());
}

#[test]
fn apps_sdk_ui_profile_accepts_standard_resource_uri_descriptor() {
    let mut descriptor = chatgpt_tool_descriptor();
    let meta = descriptor["_meta"].as_object_mut().expect("_meta object");
    meta.remove("openai/widgetAccessible");
    meta.insert(
        "ui".to_string(),
        parse(r#"{ "resourceUri": "ui://widget/work-items.html", "visibility": ["model", "app"] }"#),
    );
    let step = build_tool_schema_compatibility_step_for_profile(
        &tools_of(descriptor),
        ToolDescriptorProfile::AppsSdkUi,
    );
    assert_eq!(step_value(&step), ok_step());
}

#[test]
fn apps_sdk_ui_profile_rejects_explicit_visibility_without_app() {
    let mut descriptor = chatgpt_tool_descriptor();
    let meta = descriptor["_meta"].as_object_mut().expect("_meta object");
    meta.remove("openai/widgetAccessible");
    meta.insert(
        "ui".to_string(),
        parse(r#"{ "resourceUri": "ui://widget/work-items.html", "visibility": ["model"] }"#),
    );
    let findings = audit_tool_schema_compatibility_for_profile(
        &tools_of(descriptor),
        ToolDescriptorProfile::AppsSdkUi,
    );
    let mut expected = parse(
        r#"[{
            "severity": "error",
            "code": "ui_visibility_excludes_app",
            "tool_name": "work_items_read",
            "schema_path": "/tools/0/_meta/ui/visibility",
            "message": "Apps SDK UI descriptor visibility excludes the app.",
            "hint": "",
            "fragment": ["model"]
        }]"#,
    );
    expected[0]["hint"] = Value::String(APPS_SDK_UI_HINT.into());
    assert_eq!(findings_value(&findings), expected);
}

#[test]
fn tools_list_without_tools_array_is_flagged() {
    let findings = audit_tool_schema_compatibility(&to_json(&parse(r#"{ "items": [] }"#)));
    assert_eq!(findings.len(), 1);
    assert_eq!(findings[0].code, "tools_list_shape_invalid");
    assert_eq!(findings[0].tool_name, "<tools/list>");
}

#[test]
fn annotation_and_invocation_findings() {
    let mut descriptor = chatgpt_tool_descriptor();
    descriptor["annotations"] = parse(r#"{ "readOnlyHint": "yes" }"#);
    descriptor["_meta"]["openai/toolInvocation/invoking"] = Value::String("   ".into());
    let findings = audit_tool_schema_compatibility_for_profile(
        &tools_of(descriptor),
        ToolDescriptorProfile::ChatgptTool,
    );
    let codes: Vec<&str> = findings.iter().map(|finding| finding.code.as_str()).collect();
    assert_eq!(
        codes,
        vec![
            "annotation_read_only_hint_missing",
            "annotation_destructive_hint_missing",
            "invocation_status_blank"
        ]
    );
    assert_eq!(findings[1].schema_path, "/tools/0/annotations/destructiveHint");
    assert!(findings[1].fragment.is_none());
    assert_eq!(
        findings[2].schema_path,
        "/tools/0/_meta/openai~1toolInvocation~1invoking"
    );
}

#[test]
fn pointer_escapes_and_snake_case() {
    assert_eq!(escape_json_pointer("a/b~c"), "a~1b~0c");
    assert_eq!(camel_to_snake("readOnlyHint"), "read_only_hint");
    assert_eq!(camel_to_snake("Upper"), "upper");
}

#[test]
fn descriptor_profiles_parse() {
    assert_eq!(ToolDescriptorProfile::parse("apps-sdk-ui"), Ok(ToolDescriptorProfile::AppsSdkUi));
    assert_eq!(
        ToolDescriptorProfile::parse("fancy"),
        Err("Invalid descriptor profile `fancy`. Expected one of: basic, chatgpt_tool, apps_sdk_ui.".to_string())
    );
}

#[test]
fn stricter_profiles_only_add_findings() {
    let tools = to_json(&parse(
        r#"{"tools": [{"name": "a", "inputSchema": {"type": "object", "properties": {"x": {"type": "array"}}}}, {"name": "b"}]}"#,
    ));
    let codes = |p: ToolDescriptorProfile| -> Vec<String> {
        audit_tool_schema_compatibility_for_profile(&tools, p).into_iter().map(|f| f.code).collect()
    };
    let basic = codes(ToolDescriptorProfile::Basic);
    for stricter in [ToolDescriptorProfile::ChatgptTool, ToolDescriptorProfile::AppsSdkUi] {
        let more = codes(stricter);
        assert!(more.len() > basic.len());
        let mut rest = more.iter();
        for code in &basic {
            assert!(rest.any(|c| c == code), "{code} kept in order");
        }
    }
}
