//! Tool schema compatibility checks for client-facing MCP tool surfaces.

use vstd::prelude::*;
use crate::json::{
    entries_get, entries_size, is_object, items_size, json_as_array, json_as_str, json_get,
    json_size, lemma_entry_size, lemma_get_smaller, lemma_item_size, lemma_view_entries,
    lemma_view_items, view_entries, view_items, view_json, Json, JsonValue,
};
use crate::report::{ToolSchemaCompatibilityFinding, ToolSchemaCompatibilitySeverity};
use crate::text::{decimal, ends_with, fmt_usize, str_eq, str_ends_with};

verus! {

/// Descriptor-readiness profile applied after `tools/list` succeeds.
#[derive(Clone, Copy, Debug, PartialEq, Eq, Hash, Structural)]
pub enum ToolDescriptorProfile {
    /// Validate only generic MCP input schema compatibility.
    Basic,
    /// Validate a tool-only ChatGPT connector descriptor surface.
    ChatgptTool,
    /// Validate ChatGPT Apps SDK descriptors that are expected to expose UI templates.
    AppsSdkUi,
}

/// The wire name of a descriptor profile.
pub open spec fn descriptor_profile_name(p: ToolDescriptorProfile) -> Seq<char> {
    match p {
        ToolDescriptorProfile::Basic => "basic"@,
        ToolDescriptorProfile::ChatgptTool => "chatgpt_tool"@,
        ToolDescriptorProfile::AppsSdkUi => "apps_sdk_ui"@,
    }
}

/// The profile a name selects.
pub open spec fn descriptor_profile_from_name(v: Seq<char>) -> Option<ToolDescriptorProfile> {
    if v == "basic"@ {
        Some(ToolDescriptorProfile::Basic)
    } else if v == "chatgpt_tool"@ || v == "chatgpt-tool"@ {
        Some(ToolDescriptorProfile::ChatgptTool)
    } else if v == "apps_sdk_ui"@ || v == "apps-sdk-ui"@ {
        Some(ToolDescriptorProfile::AppsSdkUi)
    } else {
        None
    }
}

/// The message for a name that selects no descriptor profile.
pub open spec fn invalid_descriptor_profile_message(v: Seq<char>) -> Seq<char> {
    "Invalid descriptor profile `"@ + v + "`. Expected one of: basic, chatgpt_tool, apps_sdk_ui."@
}

impl ToolDescriptorProfile {
    /// The default profile.
    pub fn default_profile() -> (r: Self)
        ensures
            r == ToolDescriptorProfile::Basic,
    {
        ToolDescriptorProfile::Basic
    }

    /// The wire name of the profile.
    pub fn as_str(self) -> (r: &'static str)
        ensures
            r@ == descriptor_profile_name(self),
    {
        match self {
            ToolDescriptorProfile::Basic => "basic",
            ToolDescriptorProfile::ChatgptTool => "chatgpt_tool",
            ToolDescriptorProfile::AppsSdkUi => "apps_sdk_ui",
        }
    }

    /// Whether the profile audits ChatGPT descriptor metadata.
    pub fn requires_chatgpt_metadata(self) -> (r: bool)
        ensures
            r == (self is ChatgptTool || self is AppsSdkUi),
    {
        match self {
            ToolDescriptorProfile::ChatgptTool | ToolDescriptorProfile::AppsSdkUi => true,
            ToolDescriptorProfile::Basic => false,
        }
    }

    /// Whether the profile expects an Apps SDK UI template.
    pub fn requires_apps_sdk_ui(self) -> (r: bool)
        ensures
            r == (self is AppsSdkUi),
    {
        match self {
            ToolDescriptorProfile::AppsSdkUi => true,
            _ => false,
        }
    }

    /// Parse a descriptor profile name.
    pub fn parse(value: &str) -> (r: Result<ToolDescriptorProfile, String>)
        ensures
            match r {
                Ok(p) => descriptor_profile_from_name(value@) == Some(p),
                Err(m) => descriptor_profile_from_name(value@) is None && m@
                    == invalid_descriptor_profile_message(value@),
            },
    {
        if str_eq(value, "basic") {
            Ok(ToolDescriptorProfile::Basic)
        } else if str_eq(value, "chatgpt_tool") || str_eq(value, "chatgpt-tool") {
            Ok(ToolDescriptorProfile::ChatgptTool)
        } else if str_eq(value, "apps_sdk_ui") || str_eq(value, "apps-sdk-ui") {
            Ok(ToolDescriptorProfile::AppsSdkUi)
        } else {
            Err(
                crate::text::concat3(
                    "Invalid descriptor profile `",
                    value,
                    "`. Expected one of: basic, chatgpt_tool, apps_sdk_ui.",
                ),
            )
        }
    }
}


/// Hint for array schemas whose `items` is not an object schema.
pub const ARRAY_ITEMS_NOT_OBJECT_HINT: &'static str = "Advertise arrays with an object-valued `items` schema. Avoid raw Value/boolean schemas in client-facing tool inputs.";
/// Hint for boolean schemas.
pub const BOOLEAN_SCHEMA_HINT: &'static str = "Replace unconstrained boolean schemas with typed object/string/number/boolean schemas or an explicit object wrapper.";
/// Hint for input schemas that are not object-shaped.
pub const INPUT_SCHEMA_HINT: &'static str = "Expose each tool inputSchema as an object-shaped JSON Schema suitable for function-style MCP clients.";
/// Hint for output schemas that are not object-shaped.
pub const OUTPUT_SCHEMA_HINT: &'static str = "Expose outputSchema as an object-shaped JSON Schema so ChatGPT can validate structuredContent.";
/// Hint for missing or malformed annotations.
pub const ANNOTATIONS_HINT: &'static str = "Advertise MCP tool annotations with explicit readOnlyHint and destructiveHint booleans.";
/// Hint for missing security schemes.
pub const SECURITY_SCHEMES_HINT: &'static str = "Mirror security schemes in `_meta.securitySchemes` for ChatGPT connector compatibility.";
/// Hint for missing invocation status texts.
pub const INVOCATION_STATUS_HINT: &'static str = "Set `_meta.openai/toolInvocation/invoking` and `_meta.openai/toolInvocation/invoked` to concise strings.";
/// Hint for tool-only connectors that carry UI metadata.
pub const TOOL_ONLY_UI_HINT: &'static str = "For tool-only ChatGPT connectors, omit UI template metadata and keep model visibility available.";
/// Hint for Apps SDK UI descriptors.
pub const APPS_SDK_UI_HINT: &'static str = "For Apps SDK UI tools, advertise a component template with `_meta.ui.resourceUri` or `_meta.openai/outputTemplate`, and keep app visibility available when visibility is explicit.";
/// Hint for schema nodes that are not object schemas.
pub const SCHEMA_NODE_HINT: &'static str = "Use object-valued JSON Schema nodes for tool input properties and union branches.";

/// A finding as plain values.
pub struct FindingModel {
    pub severity: ToolSchemaCompatibilitySeverity,
    pub code: Seq<char>,
    pub tool_name: Seq<char>,
    pub schema_path: Seq<char>,
    pub message: Seq<char>,
    pub hint: Seq<char>,
    pub fragment: Option<Json>,
}

/// The plain values of a finding.
pub open spec fn finding_view(f: ToolSchemaCompatibilityFinding) -> FindingModel {
    FindingModel {
        severity: f.severity,
        code: f.code@,
        tool_name: f.tool_name@,
        schema_path: f.schema_path@,
        message: f.message@,
        hint: f.hint@,
        fragment: match f.fragment {
            Some(v) => Some(v@),
            None => None,
        },
    }
}

/// The plain values of each finding.
pub open spec fn findings_view(s: Seq<ToolSchemaCompatibilityFinding>) -> Seq<FindingModel> {
    s.map_values(|f: ToolSchemaCompatibilityFinding| finding_view(f))
}

/// An error finding.
pub open spec fn error_finding(
    code: Seq<char>,
    tool: Seq<char>,
    path: Seq<char>,
    message: Seq<char>,
    hint: Seq<char>,
    fragment: Option<Json>,
) -> FindingModel {
    FindingModel {
        severity: ToolSchemaCompatibilitySeverity::Error,
        code,
        tool_name: tool,
        schema_path: path,
        message,
        hint,
        fragment,
    }
}

/// Build a finding.
pub fn finding(
    severity: ToolSchemaCompatibilitySeverity,
    code: &str,
    tool_name: &str,
    schema_path: &str,
    message: &str,
    hint: &str,
    fragment: Option<JsonValue>,
) -> (r: ToolSchemaCompatibilityFinding)
    ensures
        finding_view(r) == (FindingModel {
            severity,
            code: code@,
            tool_name: tool_name@,
            schema_path: schema_path@,
            message: message@,
            hint: hint@,
            fragment: match fragment {
                Some(v) => Some(v@),
                None => None,
            },
        }),
{
    ToolSchemaCompatibilityFinding {
        severity,
        code: String::from_str(code),
        tool_name: String::from_str(tool_name),
        schema_path: String::from_str(schema_path),
        message: String::from_str(message),
        hint: String::from_str(hint),
        fragment,
    }
}

fn push_finding(findings: &mut Vec<ToolSchemaCompatibilityFinding>, f: ToolSchemaCompatibilityFinding)
    ensures
        findings_view(final(findings)@) == findings_view(old(findings)@).push(finding_view(f)),
{
    let ghost before = findings@;
    findings.push(f);
    proof {
        assert(findings_view(findings@) =~= findings_view(before).push(finding_view(f)));
    }
}

/// `value` with `~` written `~0` and `/` written `~1`, as a JSON pointer
/// segment.
pub open spec fn escape_pointer(s: Seq<char>) -> Seq<char>
    decreases s.len(),
{
    if s.len() == 0 {
        Seq::empty()
    } else {
        escape_pointer(s.drop_last()) + if s.last() == '~' {
            seq!['~', '0']
        } else if s.last() == '/' {
            seq!['~', '1']
        } else {
            seq![s.last()]
        }
    }
}

/// Escape a JSON pointer segment.
pub fn escape_json_pointer(value: &str) -> (r: String)
    ensures
        r@ == escape_pointer(value@),
{
    let cs = crate::text::chars_of(value);
    let mut out: Vec<char> = Vec::new();
    let mut i: usize = 0;
    while i < cs.len()
        invariant
            i <= cs@.len(),
            out@ == escape_pointer(cs@.subrange(0, i as int)),
        decreases cs@.len() - i,
    {
        let c = cs[i];
        proof {
            assert(cs@.subrange(0, i + 1).drop_last() =~= cs@.subrange(0, i as int));
        }
        if c == '~' {
            out.push('~');
            out.push('0');
        } else if c == '/' {
            out.push('~');
            out.push('1');
        } else {
            out.push(c);
        }
        proof {
            assert(out@ =~= escape_pointer(cs@.subrange(0, i + 1)));
        }
        i = i + 1;
    }
    assert(cs@.subrange(0, cs@.len() as int) =~= cs@);
    crate::text::string_of(&out)
}

/// Some item of a list is the string `t`.
pub open spec fn list_has_str(items: Seq<Json>, t: Seq<char>) -> bool {
    exists|i: int| 0 <= i < items.len() && json_as_str(#[trigger] items[i]) == Some(t)
}

/// The schema's `type` is `t` or a list that names `t`.
pub open spec fn type_allows(schema: Json, t: Seq<char>) -> bool {
    match json_get(schema, "type"@) {
        Some(Json::Str(v)) => v == t,
        Some(Json::Array(vs)) => list_has_str(vs, t),
        _ => false,
    }
}

#[verifier::loop_isolation(false)]
fn list_has_str_exec(items: &Vec<JsonValue>, t: &str) -> (r: bool)
    ensures
        r == list_has_str(view_items(items@), t@),
{
    proof {
        lemma_view_items(items@);
    }
    let mut i: usize = 0;
    while i < items.len()
        invariant
            i <= items@.len(),
            view_items(items@).len() == items@.len(),
            forall|k: int| 0 <= k < items@.len() ==> #[trigger] view_items(items@)[k] == view_json(items@[k]),
            forall|j: int| 0 <= j < i ==> json_as_str(#[trigger] view_items(items@)[j]) != Some(t@),
        decreases items@.len() - i,
    {
        assert(view_items(items@)[i as int] == items@[i as int]@);
        match items[i].as_str() {
            Some(v) => {
                if str_eq(v, t) {
                    assert(json_as_str(view_items(items@)[i as int]) == Some(t@));
                    return true;
                }
            },
            None => {},
        }
        i = i + 1;
    }
    false
}

/// Whether the schema's `type` allows `t`.
pub fn type_allows_exec(schema: &JsonValue, t: &str) -> (r: bool)
    ensures
        r == type_allows(schema@, t@),
{
    match schema.get("type") {
        Some(JsonValue::String(v)) => str_eq(v.as_str(), t),
        Some(JsonValue::Array(vs)) => list_has_str_exec(vs, t),
        _ => false,
    }
}

/// The findings of a schema root that may have to be object-shaped.
pub open spec fn root_object_findings(
    code: Seq<char>,
    tool: Seq<char>,
    path: Seq<char>,
    schema: Json,
    message: Seq<char>,
    hint: Seq<char>,
) -> Seq<FindingModel> {
    match json_get(schema, "type"@) {
        None => Seq::empty(),
        Some(_) => if type_allows(schema, "object"@) {
            Seq::empty()
        } else {
            seq![error_finding(code, tool, path, message, hint, Some(schema))]
        },
    }
}

fn audit_schema_root_object(
    code: &str,
    tool_name: &str,
    path: &str,
    schema: &JsonValue,
    message: &str,
    hint: &str,
    findings: &mut Vec<ToolSchemaCompatibilityFinding>,
)
    ensures
        findings_view(final(findings)@) == findings_view(old(findings)@) + root_object_findings(
            code@,
            tool_name@,
            path@,
            schema@,
            message@,
            hint@,
        ),
{
    let ghost before = findings_view(findings@);
    match schema.get("type") {
        None => {
            assert(before + Seq::<FindingModel>::empty() =~= before);
        },
        Some(_) => {
            if type_allows_exec(schema, "object") {
                assert(before + Seq::<FindingModel>::empty() =~= before);
            } else {
                push_finding(
                    findings,
                    finding(
                        ToolSchemaCompatibilitySeverity::Error,
                        code,
                        tool_name,
                        path,
                        message,
                        hint,
                        Some(schema.deep_clone()),
                    ),
                );
                assert(findings_view(findings@) =~= before + seq![error_finding(code@, tool_name@, path@, message@, hint@, Some(schema@))]);
            }
        },
    }
}

/// The findings about an array schema's `items`.
pub open spec fn array_items_findings(tool: Seq<char>, path: Seq<char>, schema: Json) -> Seq<
    FindingModel,
> {
    let p = path + "/items"@;
    match json_get(schema, "items"@) {
        Some(Json::Object(_)) => Seq::empty(),
        Some(items) => seq![
            error_finding(
                "array_items_not_object"@,
                tool,
                p,
                "Array schema `items` is not an object schema."@,
                ARRAY_ITEMS_NOT_OBJECT_HINT@,
                Some(items),
            ),
        ],
        None => seq![
            error_finding(
                "array_items_missing"@,
                tool,
                p,
                "Array schema is missing `items`."@,
                ARRAY_ITEMS_NOT_OBJECT_HINT@,
                Some(schema),
            ),
        ],
    }
}

fn audit_array_items(
    tool_name: &str,
    path: &str,
    schema: &JsonValue,
    findings: &mut Vec<ToolSchemaCompatibilityFinding>,
)
    ensures
        findings_view(final(findings)@) == findings_view(old(findings)@) + array_items_findings(
            tool_name@,
            path@,
            schema@,
        ),
{
    let ghost before = findings_view(findings@);
    let mut p = String::from_str(path);
    p.append("/items");
    match schema.get("items") {
        Some(JsonValue::Object(_)) => {
            assert(before + Seq::<FindingModel>::empty() =~= before);
        },
        Some(items) => {
            push_finding(
                findings,
                finding(
                    ToolSchemaCompatibilitySeverity::Error,
                    "array_items_not_object",
                    tool_name,
                    p.as_str(),
                    "Array schema `items` is not an object schema.",
                    ARRAY_ITEMS_NOT_OBJECT_HINT,
                    Some(items.deep_clone()),
                ),
            );
            assert(findings_view(findings@) =~= before + array_items_findings(tool_name@, path@, schema@));
        },
        None => {
            push_finding(
                findings,
                finding(
                    ToolSchemaCompatibilitySeverity::Error,
                    "array_items_missing",
                    tool_name,
                    p.as_str(),
                    "Array schema is missing `items`.",
                    ARRAY_ITEMS_NOT_OBJECT_HINT,
                    Some(schema.deep_clone()),
                ),
            );
            assert(findings_view(findings@) =~= before + array_items_findings(tool_name@, path@, schema@));
        },
    }
}


/// The schema names `array` as its type.
pub open spec fn is_array_schema(schema: Json) -> bool {
    json_get(schema, "type"@) is Some && type_allows(schema, "array"@)
}

/// The findings of a schema node and everything below it.
#[verifier::opaque]
pub open spec fn node_findings(tool: Seq<char>, path: Seq<char>, schema: Json) -> Seq<FindingModel>
    decreases 8 * json_size(schema) + 7,
{
    match schema {
        Json::Bool(_) => seq![
            error_finding(
                "boolean_schema"@,
                tool,
                path,
                "Schema node is a boolean schema, which is too unconstrained for common MCP function validators."@,
                BOOLEAN_SCHEMA_HINT@,
                Some(schema),
            ),
        ],
        Json::Object(_) => object_findings(tool, path, schema),
        _ => seq![
            error_finding(
                "schema_node_not_object"@,
                tool,
                path,
                "Schema node is not an object schema."@,
                SCHEMA_NODE_HINT@,
                Some(schema),
            ),
        ],
    }
}

/// The findings of an object schema node: its own checks, then those of
/// the schemas below it, keyword by keyword.
pub open spec fn object_findings(tool: Seq<char>, path: Seq<char>, schema: Json) -> Seq<FindingModel>
    decreases 8 * json_size(schema) + 6,
{
    let root = if ends_with(path, "/inputSchema"@) {
        root_object_findings(
            "input_schema_root_not_object"@,
            tool,
            path,
            schema,
            "Tool inputSchema root is not object-shaped."@,
            INPUT_SCHEMA_HINT@,
        )
    } else {
        Seq::empty()
    };
    let arr = if is_array_schema(schema) {
        array_items_findings(tool, path, schema)
    } else {
        Seq::empty()
    };
    let items = if is_array_schema(schema) {
        child_findings(tool, path, schema, "items"@)
    } else {
        Seq::empty()
    };
    root + arr + branch_findings(tool, path, schema, "anyOf"@) + branch_findings(
        tool,
        path,
        schema,
        "oneOf"@,
    ) + branch_findings(tool, path, schema, "allOf"@) + named_findings(
        tool,
        path,
        schema,
        "properties"@,
    ) + items + named_findings(tool, path, schema, "$defs"@) + named_findings(
        tool,
        path,
        schema,
        "definitions"@,
    ) + child_findings(tool, path, schema, "additionalProperties"@)
}

proof fn lemma_prepend_chain(
    b: Seq<FindingModel>,
    p1: Seq<FindingModel>,
    p2: Seq<FindingModel>,
    p3: Seq<FindingModel>,
    p4: Seq<FindingModel>,
    p5: Seq<FindingModel>,
    p6: Seq<FindingModel>,
    p7: Seq<FindingModel>,
    p8: Seq<FindingModel>,
    p9: Seq<FindingModel>,
    p10: Seq<FindingModel>,
)
    ensures
        b + (p1 + p2 + p3 + p4 + p5 + p6 + p7 + p8 + p9 + p10) == b + p1 + p2 + p3 + p4 + p5
            + p6 + p7 + p8 + p9 + p10,
{
    assert(b + (p1 + p2 + p3 + p4 + p5 + p6 + p7 + p8 + p9 + p10) =~= b + p1 + p2 + p3 + p4 + p5
        + p6 + p7 + p8 + p9 + p10);
}

/// The findings of the union branches listed under `kw`.
pub open spec fn branch_findings(tool: Seq<char>, path: Seq<char>, schema: Json, kw: Seq<char>) -> Seq<
    FindingModel,
>
    decreases 8 * json_size(schema) + 5,
{
    proof {
        lemma_get_smaller(schema, kw);
    }
    match json_get(schema, kw) {
        Some(Json::Array(items)) => list_findings(tool, path + "/"@ + kw + "/"@, items),
        _ => Seq::empty(),
    }
}

/// The findings of the named schemas under `kw`.
pub open spec fn named_findings(tool: Seq<char>, path: Seq<char>, schema: Json, kw: Seq<char>) -> Seq<
    FindingModel,
>
    decreases 8 * json_size(schema) + 5,
{
    proof {
        lemma_get_smaller(schema, kw);
    }
    match json_get(schema, kw) {
        Some(Json::Object(es)) => entry_findings(tool, path + "/"@ + kw + "/"@, es),
        _ => Seq::empty(),
    }
}

/// The findings of the object schema under `kw`, if it is one.
pub open spec fn child_findings(tool: Seq<char>, path: Seq<char>, schema: Json, kw: Seq<char>) -> Seq<
    FindingModel,
>
    decreases 8 * json_size(schema) + 5,
{
    proof {
        lemma_get_smaller(schema, kw);
    }
    match json_get(schema, kw) {
        Some(Json::Object(es)) => node_findings(tool, path + "/"@ + kw, Json::Object(es)),
        _ => Seq::empty(),
    }
}

/// The findings of each listed schema, at `base` followed by its index.
pub open spec fn list_findings(tool: Seq<char>, base: Seq<char>, items: Seq<Json>) -> Seq<
    FindingModel,
>
    decreases 8 * items_size(items) + 13,
{
    if items.len() == 0 {
        Seq::empty()
    } else {
        proof {
            lemma_item_size(items, items.len() - 1);
            assert(items.subrange(0, items.len() - 1) =~= items.drop_last());
        }
        list_findings(tool, base, items.drop_last()) + node_findings(
            tool,
            base + decimal((items.len() - 1) as nat),
            items.last(),
        )
    }
}

/// The findings of each named schema, at `base` followed by its escaped
/// name.
pub open spec fn entry_findings(tool: Seq<char>, base: Seq<char>, es: Seq<(Seq<char>, Json)>) -> Seq<
    FindingModel,
>
    decreases 8 * entries_size(es) + 13,
{
    if es.len() == 0 {
        Seq::empty()
    } else {
        proof {
            lemma_entry_size(es, es.len() - 1);
        }
        entry_findings(tool, base, es.drop_last()) + node_findings(
            tool,
            base + escape_pointer(es.last().0),
            es.last().1,
        )
    }
}

fn is_array_schema_exec(schema: &JsonValue) -> (r: bool)
    ensures
        r == is_array_schema(schema@),
{
    schema.get("type").is_some() && type_allows_exec(schema, "array")
}

fn path_join(base: &str, tail: &str) -> (r: String)
    ensures
        r@ == base@ + tail@,
{
    let mut p = String::from_str(base);
    p.append(tail);
    p
}

fn path_join3(base: &str, mid: &str, tail: &str) -> (r: String)
    ensures
        r@ == base@ + mid@ + tail@,
{
    let mut p = String::from_str(base);
    p.append(mid);
    p.append(tail);
    p
}

fn audit_list(
    tool_name: &str,
    base: &str,
    items: &Vec<JsonValue>,
    findings: &mut Vec<ToolSchemaCompatibilityFinding>,
)
    ensures
        findings_view(final(findings)@) == findings_view(old(findings)@) + list_findings(
            tool_name@,
            base@,
            view_items(items@),
        ),
    decreases 8 * items_size(view_items(items@)) + 13,
{
    proof {
        reveal_with_fuel(list_findings, 2);
    }
    let ghost before = findings_view(findings@);
    let ghost vs = view_items(items@);
    proof {
        lemma_view_items(items@);
        assert(vs.subrange(0, 0) =~= Seq::<Json>::empty());
        assert(before + Seq::<FindingModel>::empty() =~= before);
    }
    let mut i: usize = 0;
    while i < items.len()
        invariant
            i <= items@.len(),
            vs == view_items(items@),
            vs.len() == items@.len(),
            forall|k: int| 0 <= k < items@.len() ==> #[trigger] vs[k] == view_json(items@[k]),
            findings_view(findings@) == before + list_findings(
                tool_name@,
                base@,
                vs.subrange(0, i as int),
            ),
        decreases items@.len() - i,
    {
        let p = path_join(base, fmt_usize(i).as_str());
        proof {
            lemma_item_size(vs, i as int);
            assert(vs[i as int] == items@[i as int]@);
        }
        audit_schema_node(tool_name, p.as_str(), &items[i], findings);
        proof {
            reveal(node_findings);
            let sub = vs.subrange(0, i + 1);
            assert(sub.drop_last() =~= vs.subrange(0, i as int));
            assert(sub.last() == vs[i as int]);
            crate::text::lemma_concat_assoc3(
                before,
                list_findings(tool_name@, base@, vs.subrange(0, i as int)),
                node_findings(tool_name@, p@, vs[i as int]),
            );
            assert(list_findings(tool_name@, base@, sub) == list_findings(tool_name@, base@, vs.subrange(0, i as int))
                + node_findings(tool_name@, p@, vs[i as int]));
            assert(findings_view(findings@) == before + list_findings(tool_name@, base@, sub));
        }
        i = i + 1;
    }
    assert(vs.subrange(0, i as int) =~= vs);
}

fn audit_entries(
    tool_name: &str,
    base: &str,
    es: &Vec<(String, JsonValue)>,
    findings: &mut Vec<ToolSchemaCompatibilityFinding>,
)
    ensures
        findings_view(final(findings)@) == findings_view(old(findings)@) + entry_findings(
            tool_name@,
            base@,
            view_entries(es@),
        ),
    decreases 8 * entries_size(view_entries(es@)) + 13,
{
    proof {
        reveal_with_fuel(entry_findings, 2);
    }
    let ghost before = findings_view(findings@);
    let ghost vs = view_entries(es@);
    proof {
        lemma_view_entries(es@);
        assert(vs.subrange(0, 0) =~= Seq::<(Seq<char>, Json)>::empty());
        assert(before + Seq::<FindingModel>::empty() =~= before);
    }
    let mut i: usize = 0;
    while i < es.len()
        invariant
            i <= es@.len(),
            vs == view_entries(es@),
            vs.len() == es@.len(),
            forall|k: int|
                0 <= k < es@.len() ==> #[trigger] vs[k] == (es@[k].0@, view_json(es@[k].1)),
            findings_view(findings@) == before + entry_findings(
                tool_name@,
                base@,
                vs.subrange(0, i as int),
            ),
        decreases es@.len() - i,
    {
        let p = path_join(base, escape_json_pointer(es[i].0.as_str()).as_str());
        proof {
            lemma_entry_size(vs, i as int);
            assert(vs[i as int].1 == es@[i as int].1@);
        }
        audit_schema_node(tool_name, p.as_str(), &es[i].1, findings);
        proof {
            reveal(node_findings);
            let sub = vs.subrange(0, i + 1);
            assert(sub.drop_last() =~= vs.subrange(0, i as int));
            assert(sub.last() == vs[i as int]);
            crate::text::lemma_concat_assoc3(
                before,
                entry_findings(tool_name@, base@, vs.subrange(0, i as int)),
                node_findings(tool_name@, p@, vs[i as int].1),
            );
            assert(entry_findings(tool_name@, base@, sub) == entry_findings(tool_name@, base@, vs.subrange(0, i as int))
                + node_findings(tool_name@, p@, vs[i as int].1));
            assert(findings_view(findings@) == before + entry_findings(tool_name@, base@, sub));
        }
        i = i + 1;
    }
    assert(vs.subrange(0, i as int) =~= vs);
}

fn audit_branches(
    tool_name: &str,
    path: &str,
    schema: &JsonValue,
    kw: &str,
    findings: &mut Vec<ToolSchemaCompatibilityFinding>,
)
    ensures
        findings_view(final(findings)@) == findings_view(old(findings)@) + branch_findings(
            tool_name@,
            path@,
            schema@,
            kw@,
        ),
    decreases 8 * json_size(schema@) + 5,
{
    let ghost f = findings_view(findings@);
    proof {
        reveal(node_findings);
        lemma_get_smaller(schema@, kw@);
    }
    match schema.get(kw) {
        Some(JsonValue::Array(items)) => {
            let b = path_join3(path, "/", kw);
            let b = path_join(b.as_str(), "/");
            audit_list(tool_name, b.as_str(), items, findings);
        },
        _ => {
            assert(f + Seq::<FindingModel>::empty() =~= f);
        },
    }
}

fn audit_named(
    tool_name: &str,
    path: &str,
    schema: &JsonValue,
    kw: &str,
    findings: &mut Vec<ToolSchemaCompatibilityFinding>,
)
    ensures
        findings_view(final(findings)@) == findings_view(old(findings)@) + named_findings(
            tool_name@,
            path@,
            schema@,
            kw@,
        ),
    decreases 8 * json_size(schema@) + 5,
{
    let ghost f = findings_view(findings@);
    proof {
        reveal(node_findings);
        lemma_get_smaller(schema@, kw@);
    }
    match schema.get(kw) {
        Some(JsonValue::Object(es)) => {
            let b = path_join3(path, "/", kw);
            let b = path_join(b.as_str(), "/");
            audit_entries(tool_name, b.as_str(), es, findings);
        },
        _ => {
            assert(f + Seq::<FindingModel>::empty() =~= f);
        },
    }
}

fn audit_child(
    tool_name: &str,
    path: &str,
    schema: &JsonValue,
    kw: &str,
    findings: &mut Vec<ToolSchemaCompatibilityFinding>,
)
    ensures
        findings_view(final(findings)@) == findings_view(old(findings)@) + child_findings(
            tool_name@,
            path@,
            schema@,
            kw@,
        ),
    decreases 8 * json_size(schema@) + 5,
{
    let ghost f = findings_view(findings@);
    proof {
        reveal(node_findings);
        lemma_get_smaller(schema@, kw@);
    }
    match schema.get(kw) {
        Some(child) => {
            if child.is_object() {
                let b = path_join3(path, "/", kw);
                audit_schema_node(tool_name, b.as_str(), child, findings);
            } else {
                assert(f + Seq::<FindingModel>::empty() =~= f);
            }
        },
        None => {
            assert(f + Seq::<FindingModel>::empty() =~= f);
        },
    }
}

fn audit_object(
    tool_name: &str,
    path: &str,
    schema: &JsonValue,
    findings: &mut Vec<ToolSchemaCompatibilityFinding>,
)
    ensures
        findings_view(final(findings)@) == findings_view(old(findings)@) + object_findings(
            tool_name@,
            path@,
            schema@,
        ),
    decreases 8 * json_size(schema@) + 6,
{
    let ghost sv = schema@;
    let ghost f0 = findings_view(findings@);
    if str_ends_with(path, "/inputSchema") {
        audit_schema_root_object(
            "input_schema_root_not_object",
            tool_name,
            path,
            schema,
            "Tool inputSchema root is not object-shaped.",
            INPUT_SCHEMA_HINT,
            findings,
        );
    } else {
        assert(f0 + Seq::<FindingModel>::empty() =~= f0);
    }
    let is_arr = is_array_schema_exec(schema);
    let ghost f1 = findings_view(findings@);
    if is_arr {
        audit_array_items(tool_name, path, schema, findings);
    } else {
        assert(f1 + Seq::<FindingModel>::empty() =~= f1);
    }
    audit_branches(tool_name, path, schema, "anyOf", findings);
    audit_branches(tool_name, path, schema, "oneOf", findings);
    audit_branches(tool_name, path, schema, "allOf", findings);
    audit_named(tool_name, path, schema, "properties", findings);
    let ghost f6 = findings_view(findings@);
    if is_arr {
        audit_child(tool_name, path, schema, "items", findings);
    } else {
        assert(f6 + Seq::<FindingModel>::empty() =~= f6);
    }
    audit_named(tool_name, path, schema, "$defs", findings);
    audit_named(tool_name, path, schema, "definitions", findings);
    audit_child(tool_name, path, schema, "additionalProperties", findings);
    proof {
        let t = tool_name@;
        let p = path@;
        let root = if ends_with(p, "/inputSchema"@) {
            root_object_findings(
                "input_schema_root_not_object"@,
                t,
                p,
                sv,
                "Tool inputSchema root is not object-shaped."@,
                INPUT_SCHEMA_HINT@,
            )
        } else {
            Seq::empty()
        };
        let arr = if is_array_schema(sv) {
            array_items_findings(t, p, sv)
        } else {
            Seq::empty()
        };
        let items = if is_array_schema(sv) {
            child_findings(t, p, sv, "items"@)
        } else {
            Seq::empty()
        };
        lemma_prepend_chain(
            f0,
            root,
            arr,
            branch_findings(t, p, sv, "anyOf"@),
            branch_findings(t, p, sv, "oneOf"@),
            branch_findings(t, p, sv, "allOf"@),
            named_findings(t, p, sv, "properties"@),
            items,
            named_findings(t, p, sv, "$defs"@),
            named_findings(t, p, sv, "definitions"@),
            child_findings(t, p, sv, "additionalProperties"@),
        );
    }
}

/// Audit a schema node and everything below it.
pub fn audit_schema_node(
    tool_name: &str,
    path: &str,
    schema: &JsonValue,
    findings: &mut Vec<ToolSchemaCompatibilityFinding>,
)
    ensures
        findings_view(final(findings)@) == findings_view(old(findings)@) + node_findings(
            tool_name@,
            path@,
            schema@,
        ),
    decreases 8 * json_size(schema@) + 7,
{
    proof {
        reveal(node_findings);
    }
    let ghost before = findings_view(findings@);
    match schema {
        JsonValue::Bool(_) => {
            push_finding(
                findings,
                finding(
                    ToolSchemaCompatibilitySeverity::Error,
                    "boolean_schema",
                    tool_name,
                    path,
                    "Schema node is a boolean schema, which is too unconstrained for common MCP function validators.",
                    BOOLEAN_SCHEMA_HINT,
                    Some(schema.deep_clone()),
                ),
            );
            assert(findings_view(findings@) =~= before + node_findings(tool_name@, path@, schema@));
        },
        JsonValue::Object(_) => {
            audit_object(tool_name, path, schema, findings);
        },
        _ => {
            push_finding(
                findings,
                finding(
                    ToolSchemaCompatibilitySeverity::Error,
                    "schema_node_not_object",
                    tool_name,
                    path,
                    "Schema node is not an object schema.",
                    SCHEMA_NODE_HINT,
                    Some(schema.deep_clone()),
                ),
            );
            assert(findings_view(findings@) =~= before + node_findings(tool_name@, path@, schema@));
        },
    }
}


/// `value` in snake case: each ASCII upper-case letter after the first
/// character becomes `_` and its lower-case form.
pub open spec fn snake_case(s: Seq<char>) -> Seq<char>
    decreases s.len(),
{
    if s.len() == 0 {
        Seq::empty()
    } else {
        let c = s.last();
        snake_case(s.drop_last()) + if 'A' <= c && c <= 'Z' {
            if s.len() > 1 {
                seq!['_', crate::text::ascii_lower_char(c)]
            } else {
                seq![crate::text::ascii_lower_char(c)]
            }
        } else {
            seq![c]
        }
    }
}

/// Convert a camel-case key to snake case.
pub fn camel_to_snake(value: &str) -> (r: String)
    ensures
        r@ == snake_case(value@),
{
    let cs = crate::text::chars_of(value);
    let mut out: Vec<char> = Vec::new();
    let mut i: usize = 0;
    while i < cs.len()
        invariant
            i <= cs@.len(),
            out@ == snake_case(cs@.subrange(0, i as int)),
        decreases cs@.len() - i,
    {
        let c = cs[i];
        proof {
            assert(cs@.subrange(0, i + 1).drop_last() =~= cs@.subrange(0, i as int));
        }
        if 'A' <= c && c <= 'Z' {
            if i > 0 {
                out.push('_');
            }
            out.push(crate::text::ascii_lower_char_exec(c));
        } else {
            out.push(c);
        }
        proof {
            assert(out@ =~= snake_case(cs@.subrange(0, i + 1)));
        }
        i = i + 1;
    }
    assert(cs@.subrange(0, cs@.len() as int) =~= cs@);
    crate::text::string_of(&out)
}

/// `/tools/<index>/<tail>`.
pub open spec fn tool_path(index: int, tail: Seq<char>) -> Seq<char> {
    "/tools/"@ + decimal(index as nat) + "/"@ + tail
}

fn tool_path_exec(index: usize, tail: &str) -> (r: String)
    ensures
        r@ == tool_path(index as int, tail@),
{
    let mut p = String::from_str("/tools/");
    p.append(fmt_usize(index).as_str());
    p.append("/");
    p.append(tail);
    p
}

/// The findings about a tool's `outputSchema`.
#[verifier::opaque]
pub open spec fn output_schema_findings(tool_name: Seq<char>, index: int, tool: Json) -> Seq<
    FindingModel,
> {
    let path = tool_path(index, "outputSchema"@);
    match json_get(tool, "outputSchema"@) {
        Some(schema) => if is_object(schema) {
            root_object_findings(
                "output_schema_root_not_object"@,
                tool_name,
                path,
                schema,
                "Tool outputSchema root is not object-shaped."@,
                OUTPUT_SCHEMA_HINT@,
            ) + node_findings(tool_name, path, schema)
        } else {
            seq![
                error_finding(
                    "output_schema_not_object"@,
                    tool_name,
                    path,
                    "Tool outputSchema is not an object schema."@,
                    OUTPUT_SCHEMA_HINT@,
                    Some(schema),
                ),
            ]
        },
        None => seq![
            error_finding(
                "output_schema_missing"@,
                tool_name,
                path,
                "Tool descriptor is missing outputSchema."@,
                OUTPUT_SCHEMA_HINT@,
                Some(tool),
            ),
        ],
    }
}

fn audit_output_schema(
    tool_name: &str,
    index: usize,
    tool: &JsonValue,
    findings: &mut Vec<ToolSchemaCompatibilityFinding>,
)
    ensures
        findings_view(final(findings)@) == findings_view(old(findings)@) + output_schema_findings(
            tool_name@,
            index as int,
            tool@,
        ),
{
    proof {
        reveal(output_schema_findings);
    }
    let ghost before = findings_view(findings@);
    let path = tool_path_exec(index, "outputSchema");
    match tool.get("outputSchema") {
        Some(schema) => {
            if schema.is_object() {
                audit_schema_root_object(
                    "output_schema_root_not_object",
                    tool_name,
                    path.as_str(),
                    schema,
                    "Tool outputSchema root is not object-shaped.",
                    OUTPUT_SCHEMA_HINT,
                    findings,
                );
                audit_schema_node(tool_name, path.as_str(), schema, findings);
                proof {
                    crate::text::lemma_concat_assoc3(
                        before,
                        root_object_findings(
                            "output_schema_root_not_object"@,
                            tool_name@,
                            path@,
                            schema@,
                            "Tool outputSchema root is not object-shaped."@,
                            OUTPUT_SCHEMA_HINT@,
                        ),
                        node_findings(tool_name@, path@, schema@),
                    );
                }
            } else {
                push_finding(
                    findings,
                    finding(
                        ToolSchemaCompatibilitySeverity::Error,
                        "output_schema_not_object",
                        tool_name,
                        path.as_str(),
                        "Tool outputSchema is not an object schema.",
                        OUTPUT_SCHEMA_HINT,
                        Some(schema.deep_clone()),
                    ),
                );
                assert(findings_view(findings@) =~= before + output_schema_findings(tool_name@, index as int, tool@));
            }
        },
        None => {
            push_finding(
                findings,
                finding(
                    ToolSchemaCompatibilitySeverity::Error,
                    "output_schema_missing",
                    tool_name,
                    path.as_str(),
                    "Tool descriptor is missing outputSchema.",
                    OUTPUT_SCHEMA_HINT,
                    Some(tool.deep_clone()),
                ),
            );
            assert(findings_view(findings@) =~= before + output_schema_findings(tool_name@, index as int, tool@));
        },
    }
}

/// The finding for one annotation hint key that is missing or not boolean.
pub open spec fn annotation_key_findings(
    tool_name: Seq<char>,
    path: Seq<char>,
    annotations: Json,
    key: Seq<char>,
) -> Seq<FindingModel> {
    match json_get(annotations, key) {
        Some(Json::Bool(_)) => Seq::empty(),
        other => seq![
            error_finding(
                "annotation_"@ + snake_case(key) + "_missing"@,
                tool_name,
                path + "/"@ + key,
                "Tool annotations."@ + key + " is missing or not a boolean."@,
                ANNOTATIONS_HINT@,
                other,
            ),
        ],
    }
}

/// The findings about a tool's annotations.
#[verifier::opaque]
pub open spec fn annotation_findings(tool_name: Seq<char>, index: int, tool: Json) -> Seq<
    FindingModel,
> {
    let path = tool_path(index, "annotations"@);
    match json_get(tool, "annotations"@) {
        None => seq![
            error_finding(
                "annotations_missing"@,
                tool_name,
                path,
                "Tool descriptor is missing annotations."@,
                ANNOTATIONS_HINT@,
                Some(tool),
            ),
        ],
        Some(a) => if !is_object(a) {
            seq![
                error_finding(
                    "annotations_not_object"@,
                    tool_name,
                    path,
                    "Tool annotations are not an object."@,
                    ANNOTATIONS_HINT@,
                    Some(a),
                ),
            ]
        } else {
            annotation_key_findings(tool_name, path, a, "readOnlyHint"@) + annotation_key_findings(
                tool_name,
                path,
                a,
                "destructiveHint"@,
            )
        },
    }
}

fn clone_opt_json(v: Option<&JsonValue>) -> (r: Option<JsonValue>)
    ensures
        match r {
            Some(x) => v is Some && x@ == v->0@,
            None => v is None,
        },
{
    match v {
        Some(x) => Some(x.deep_clone()),
        None => None,
    }
}

fn audit_annotation_key(
    tool_name: &str,
    path: &str,
    annotations: &JsonValue,
    key: &str,
    findings: &mut Vec<ToolSchemaCompatibilityFinding>,
)
    ensures
        findings_view(final(findings)@) == findings_view(old(findings)@) + annotation_key_findings(
            tool_name@,
            path@,
            annotations@,
            key@,
        ),
{
    let ghost before = findings_view(findings@);
    let v = annotations.get(key);
    match v {
        Some(JsonValue::Bool(_)) => {
            assert(before + Seq::<FindingModel>::empty() =~= before);
        },
        _ => {
            let mut code = String::from_str("annotation_");
            code.append(camel_to_snake(key).as_str());
            code.append("_missing");
            let key_path = path_join3(path, "/", key);
            let mut message = String::from_str("Tool annotations.");
            message.append(key);
            message.append(" is missing or not a boolean.");
            push_finding(
                findings,
                finding(
                    ToolSchemaCompatibilitySeverity::Error,
                    code.as_str(),
                    tool_name,
                    key_path.as_str(),
                    message.as_str(),
                    ANNOTATIONS_HINT,
                    clone_opt_json(v),
                ),
            );
            assert(findings_view(findings@) =~= before + annotation_key_findings(tool_name@, path@, annotations@, key@));
        },
    }
}

fn audit_annotations(
    tool_name: &str,
    index: usize,
    tool: &JsonValue,
    findings: &mut Vec<ToolSchemaCompatibilityFinding>,
)
    ensures
        findings_view(final(findings)@) == findings_view(old(findings)@) + annotation_findings(
            tool_name@,
            index as int,
            tool@,
        ),
{
    proof {
        reveal(annotation_findings);
    }
    let ghost before = findings_view(findings@);
    let path = tool_path_exec(index, "annotations");
    match tool.get("annotations") {
        None => {
            push_finding(
                findings,
                finding(
                    ToolSchemaCompatibilitySeverity::Error,
                    "annotations_missing",
                    tool_name,
                    path.as_str(),
                    "Tool descriptor is missing annotations.",
                    ANNOTATIONS_HINT,
                    Some(tool.deep_clone()),
                ),
            );
            assert(findings_view(findings@) =~= before + annotation_findings(tool_name@, index as int, tool@));
        },
        Some(a) => {
            if !a.is_object() {
                push_finding(
                    findings,
                    finding(
                        ToolSchemaCompatibilitySeverity::Error,
                        "annotations_not_object",
                        tool_name,
                        path.as_str(),
                        "Tool annotations are not an object.",
                        ANNOTATIONS_HINT,
                        Some(a.deep_clone()),
                    ),
                );
                assert(findings_view(findings@) =~= before + annotation_findings(tool_name@, index as int, tool@));
            } else {
                audit_annotation_key(tool_name, path.as_str(), a, "readOnlyHint", findings);
                audit_annotation_key(tool_name, path.as_str(), a, "destructiveHint", findings);
                proof {
                    crate::text::lemma_concat_assoc3(
                        before,
                        annotation_key_findings(tool_name@, path@, a@, "readOnlyHint"@),
                        annotation_key_findings(tool_name@, path@, a@, "destructiveHint"@),
                    );
                }
            }
        },
    }
}


/// The findings about `_meta.securitySchemes`.
#[verifier::opaque]
pub open spec fn security_scheme_findings(tool_name: Seq<char>, meta_path: Seq<char>, meta: Json) -> Seq<
    FindingModel,
> {
    let path = meta_path + "/securitySchemes"@;
    match json_get(meta, "securitySchemes"@) {
        Some(Json::Array(values)) => if values.len() > 0 {
            Seq::empty()
        } else {
            seq![
                error_finding(
                    "security_schemes_empty"@,
                    tool_name,
                    path,
                    "`_meta.securitySchemes` is empty."@,
                    SECURITY_SCHEMES_HINT@,
                    Some(Json::Array(Seq::empty())),
                ),
            ]
        },
        Some(v) => seq![
            error_finding(
                "security_schemes_not_array"@,
                tool_name,
                path,
                "`_meta.securitySchemes` is not an array."@,
                SECURITY_SCHEMES_HINT@,
                Some(v),
            ),
        ],
        None => seq![
            error_finding(
                "security_schemes_missing"@,
                tool_name,
                path,
                "Tool descriptor is missing `_meta.securitySchemes`."@,
                SECURITY_SCHEMES_HINT@,
                Some(meta),
            ),
        ],
    }
}

fn audit_security_schemes(
    tool_name: &str,
    meta_path: &str,
    meta: &JsonValue,
    findings: &mut Vec<ToolSchemaCompatibilityFinding>,
)
    ensures
        findings_view(final(findings)@) == findings_view(old(findings)@) + security_scheme_findings(
            tool_name@,
            meta_path@,
            meta@,
        ),
{
    proof {
        reveal(security_scheme_findings);
    }
    let ghost before = findings_view(findings@);
    let path = path_join(meta_path, "/securitySchemes");
    match meta.get("securitySchemes") {
        Some(JsonValue::Array(values)) => {
            proof {
                lemma_view_items(values@);
            }
            if values.len() > 0 {
                assert(before + Seq::<FindingModel>::empty() =~= before);
            } else {
                let empty: Vec<JsonValue> = Vec::new();
                push_finding(
                    findings,
                    finding(
                        ToolSchemaCompatibilitySeverity::Error,
                        "security_schemes_empty",
                        tool_name,
                        path.as_str(),
                        "`_meta.securitySchemes` is empty.",
                        SECURITY_SCHEMES_HINT,
                        Some(JsonValue::Array(empty)),
                    ),
                );
                proof {
                    assert(view_items(empty@) =~= Seq::<Json>::empty());
                }
                assert(findings_view(findings@) =~= before + security_scheme_findings(tool_name@, meta_path@, meta@));
            }
        },
        Some(v) => {
            push_finding(
                findings,
                finding(
                    ToolSchemaCompatibilitySeverity::Error,
                    "security_schemes_not_array",
                    tool_name,
                    path.as_str(),
                    "`_meta.securitySchemes` is not an array.",
                    SECURITY_SCHEMES_HINT,
                    Some(v.deep_clone()),
                ),
            );
            assert(findings_view(findings@) =~= before + security_scheme_findings(tool_name@, meta_path@, meta@));
        },
        None => {
            push_finding(
                findings,
                finding(
                    ToolSchemaCompatibilitySeverity::Error,
                    "security_schemes_missing",
                    tool_name,
                    path.as_str(),
                    "Tool descriptor is missing `_meta.securitySchemes`.",
                    SECURITY_SCHEMES_HINT,
                    Some(meta.deep_clone()),
                ),
            );
            assert(findings_view(findings@) =~= before + security_scheme_findings(tool_name@, meta_path@, meta@));
        },
    }
}

/// The findings about one OpenAI invocation status text.
#[verifier::opaque]
pub open spec fn invocation_key_findings(
    tool_name: Seq<char>,
    meta_path: Seq<char>,
    meta: Json,
    key: Seq<char>,
) -> Seq<FindingModel> {
    let path = meta_path + "/"@ + escape_pointer(key);
    match json_get(meta, key) {
        Some(Json::Str(v)) => if !crate::text::is_blank(v) && v.len() <= 64 {
            Seq::empty()
        } else if !crate::text::is_blank(v) {
            seq![
                error_finding(
                    "invocation_status_too_long"@,
                    tool_name,
                    path,
                    "Tool invocation status text is longer than 64 characters."@,
                    INVOCATION_STATUS_HINT@,
                    Some(Json::Str(v)),
                ),
            ]
        } else {
            seq![
                error_finding(
                    "invocation_status_blank"@,
                    tool_name,
                    path,
                    "Tool invocation status text is blank."@,
                    INVOCATION_STATUS_HINT@,
                    Some(Json::Str(v)),
                ),
            ]
        },
        _ => seq![
            error_finding(
                "invocation_status_missing"@,
                tool_name,
                path,
                "Tool descriptor is missing OpenAI invocation status text."@,
                INVOCATION_STATUS_HINT@,
                Some(meta),
            ),
        ],
    }
}

fn audit_invocation_key(
    tool_name: &str,
    meta_path: &str,
    meta: &JsonValue,
    key: &str,
    findings: &mut Vec<ToolSchemaCompatibilityFinding>,
)
    ensures
        findings_view(final(findings)@) == findings_view(old(findings)@) + invocation_key_findings(
            tool_name@,
            meta_path@,
            meta@,
            key@,
        ),
{
    proof {
        reveal(invocation_key_findings);
    }
    let ghost before = findings_view(findings@);
    let path = path_join3(meta_path, "/", escape_json_pointer(key).as_str());
    match meta.get(key) {
        Some(JsonValue::String(v)) => {
            let blank = crate::text::is_blank_str(v.as_str());
            if !blank && v.as_str().unicode_len() <= 64 {
                assert(before + Seq::<FindingModel>::empty() =~= before);
            } else if !blank {
                push_finding(
                    findings,
                    finding(
                        ToolSchemaCompatibilitySeverity::Error,
                        "invocation_status_too_long",
                        tool_name,
                        path.as_str(),
                        "Tool invocation status text is longer than 64 characters.",
                        INVOCATION_STATUS_HINT,
                        Some(JsonValue::String(v.clone())),
                    ),
                );
                assert(findings_view(findings@) =~= before + invocation_key_findings(tool_name@, meta_path@, meta@, key@));
            } else {
                push_finding(
                    findings,
                    finding(
                        ToolSchemaCompatibilitySeverity::Error,
                        "invocation_status_blank",
                        tool_name,
                        path.as_str(),
                        "Tool invocation status text is blank.",
                        INVOCATION_STATUS_HINT,
                        Some(JsonValue::String(v.clone())),
                    ),
                );
                assert(findings_view(findings@) =~= before + invocation_key_findings(tool_name@, meta_path@, meta@, key@));
            }
        },
        _ => {
            push_finding(
                findings,
                finding(
                    ToolSchemaCompatibilitySeverity::Error,
                    "invocation_status_missing",
                    tool_name,
                    path.as_str(),
                    "Tool descriptor is missing OpenAI invocation status text.",
                    INVOCATION_STATUS_HINT,
                    Some(meta.deep_clone()),
                ),
            );
            assert(findings_view(findings@) =~= before + invocation_key_findings(tool_name@, meta_path@, meta@, key@));
        },
    }
}

/// A visibility value (a string or a list of strings) names one that
/// satisfies `p`.
pub open spec fn visibility_contains(v: Json, p: spec_fn(Seq<char>) -> bool) -> bool {
    match v {
        Json::Str(s) => p(s),
        Json::Array(items) => exists|i: int|
            0 <= i < items.len() && (#[trigger] items[i] matches Json::Str(s) && p(s)),
        _ => false,
    }
}

/// A visibility name that includes the model.
pub open spec fn is_model_visibility(v: Seq<char>) -> bool {
    v == "model"@ || v == "model-only"@ || v == "model_only"@
}

/// A visibility name that includes the app.
pub open spec fn is_app_visibility(v: Seq<char>) -> bool {
    v == "app"@
}

/// Whether a visibility name includes the model.
pub fn is_model_visibility_value(value: &str) -> (r: bool)
    ensures
        r == is_model_visibility(value@),
{
    str_eq(value, "model") || str_eq(value, "model-only") || str_eq(value, "model_only")
}

/// Whether a visibility name includes the app.
pub fn is_app_visibility_value(value: &str) -> (r: bool)
    ensures
        r == is_app_visibility(value@),
{
    str_eq(value, "app")
}

fn visibility_includes(v: &JsonValue, want_app: bool) -> (r: bool)
    ensures
        r == if want_app {
            visibility_contains(v@, |s: Seq<char>| is_app_visibility(s))
        } else {
            visibility_contains(v@, |s: Seq<char>| is_model_visibility(s))
        },
{
    match v {
        JsonValue::String(s) => if want_app {
            is_app_visibility_value(s.as_str())
        } else {
            is_model_visibility_value(s.as_str())
        },
        JsonValue::Array(items) => {
            proof {
                lemma_view_items(items@);
            }
            let ghost vs = view_items(items@);
            let mut i: usize = 0;
            while i < items.len()
                invariant
                    i <= items@.len(),
                    vs == view_items(items@),
                    vs.len() == items@.len(),
                    v@ == Json::Array(vs),
                    forall|k: int| 0 <= k < items@.len() ==> #[trigger] vs[k] == view_json(items@[k]),
                    forall|j: int|
                        0 <= j < i ==> !(#[trigger] vs[j] matches Json::Str(s) && (if want_app {
                            is_app_visibility(s)
                        } else {
                            is_model_visibility(s)
                        })),
                decreases items@.len() - i,
            {
                assert(vs[i as int] == items@[i as int]@);
                match &items[i] {
                    JsonValue::String(s) => {
                        let hit = if want_app {
                            is_app_visibility_value(s.as_str())
                        } else {
                            is_model_visibility_value(s.as_str())
                        };
                        if hit {
                            return true;
                        }
                    },
                    _ => {},
                }
                i = i + 1;
            }
            false
        },
        _ => false,
    }
}

/// `meta` at `/a/b`, as `Value::pointer` resolves object members.
pub open spec fn pointer2(meta: Json, a: Seq<char>, b: Seq<char>) -> Option<Json> {
    match json_get(meta, a) {
        Some(inner) => json_get(inner, b),
        None => None,
    }
}

fn pointer2_exec<'a>(meta: &'a JsonValue, a: &str, b: &str) -> (r: Option<&'a JsonValue>)
    ensures
        match r {
            Some(v) => pointer2(meta@, a@, b@) == Some(v@),
            None => pointer2(meta@, a@, b@) is None,
        },
{
    match meta.get(a) {
        Some(inner) => inner.get(b),
        None => None,
    }
}

/// A present, non-blank string.
pub open spec fn nonblank_str(v: Option<Json>) -> bool {
    match v {
        Some(Json::Str(s)) => !crate::text::is_blank(s),
        _ => false,
    }
}

/// The metadata advertises an Apps SDK UI template.
pub open spec fn has_ui_template(meta: Json) -> bool {
    nonblank_str(json_get(meta, "openai/outputTemplate"@)) || nonblank_str(
        pointer2(meta, "ui"@, "resourceUri"@),
    )
}

fn nonblank_str_exec(v: Option<&JsonValue>) -> (r: bool)
    ensures
        r == nonblank_str(
            match v {
                Some(x) => Some(x@),
                None => None,
            },
        ),
{
    match v {
        Some(JsonValue::String(s)) => !crate::text::is_blank_str(s.as_str()),
        _ => false,
    }
}

/// Whether the metadata advertises an Apps SDK UI template.
pub fn has_apps_sdk_ui_template(meta: &JsonValue) -> (r: bool)
    ensures
        r == has_ui_template(meta@),
{
    nonblank_str_exec(meta.get("openai/outputTemplate")) || nonblank_str_exec(
        pointer2_exec(meta, "ui", "resourceUri"),
    )
}


/// A warning finding.
pub open spec fn warning_finding(
    code: Seq<char>,
    tool: Seq<char>,
    path: Seq<char>,
    message: Seq<char>,
    hint: Seq<char>,
    fragment: Option<Json>,
) -> FindingModel {
    FindingModel {
        severity: ToolSchemaCompatibilitySeverity::Warning,
        ..error_finding(code, tool, path, message, hint, fragment)
    }
}

/// The findings about UI metadata on a tool-only descriptor.
#[verifier::opaque]
pub open spec fn tool_only_ui_findings(
    tool_name: Seq<char>,
    meta_path: Seq<char>,
    meta: Json,
    has_apps_ui: bool,
) -> Seq<FindingModel> {
    let widget_path = meta_path + "/"@ + escape_pointer("openai/widgetAccessible"@);
    let widget = match json_get(meta, "openai/widgetAccessible"@) {
        None => Seq::empty(),
        Some(Json::Bool(false)) => Seq::empty(),
        Some(Json::Bool(true)) => seq![
            error_finding(
                "widget_accessible_true_for_tool_only"@,
                tool_name,
                widget_path,
                "Tool-only descriptor enables widget-originated tool calls without an Apps SDK UI template."@,
                TOOL_ONLY_UI_HINT@,
                Some(Json::Bool(true)),
            ),
        ],
        Some(v) => seq![
            error_finding(
                "widget_accessible_not_boolean"@,
                tool_name,
                widget_path,
                "`_meta.openai/widgetAccessible` is not a boolean."@,
                TOOL_ONLY_UI_HINT@,
                Some(v),
            ),
        ],
    };
    let visibility_path = meta_path + "/ui/visibility"@;
    let visibility = match pointer2(meta, "ui"@, "visibility"@) {
        Some(v) => if visibility_contains(v, |s: Seq<char>| is_model_visibility(s)) {
            if visibility_contains(v, |s: Seq<char>| is_app_visibility(s)) {
                seq![
                    warning_finding(
                        "tool_only_ui_visibility_includes_app"@,
                        tool_name,
                        visibility_path,
                        "Tool-only descriptor explicitly includes app visibility without an Apps SDK UI template."@,
                        TOOL_ONLY_UI_HINT@,
                        Some(v),
                    ),
                ]
            } else {
                Seq::empty()
            }
        } else {
            seq![
                error_finding(
                    "ui_visibility_excludes_model"@,
                    tool_name,
                    visibility_path,
                    "Tool-only descriptor UI visibility excludes the model."@,
                    TOOL_ONLY_UI_HINT@,
                    Some(v),
                ),
            ]
        },
        None => Seq::empty(),
    };
    let template = if has_apps_ui {
        seq![
            error_finding(
                "tool_only_ui_template_present"@,
                tool_name,
                meta_path,
                "Tool-only descriptor advertised Apps SDK UI template metadata."@,
                "Use descriptor_profile=apps_sdk_ui for UI-backed tools, or remove the UI template metadata from tool-only connectors."@,
                Some(meta),
            ),
        ]
    } else {
        Seq::empty()
    };
    widget + visibility + template
}

#[verifier::rlimit(30)]
fn audit_tool_only_ui_metadata(
    tool_name: &str,
    meta_path: &str,
    meta: &JsonValue,
    has_apps_ui: bool,
    findings: &mut Vec<ToolSchemaCompatibilityFinding>,
)
    ensures
        findings_view(final(findings)@) == findings_view(old(findings)@) + tool_only_ui_findings(
            tool_name@,
            meta_path@,
            meta@,
            has_apps_ui,
        ),
{
    proof {
        reveal(tool_only_ui_findings);
    }
    let ghost before = findings_view(findings@);
    let widget_path = path_join3(
        meta_path,
        "/",
        escape_json_pointer("openai/widgetAccessible").as_str(),
    );
    match meta.get("openai/widgetAccessible") {
        None => {},
        Some(JsonValue::Bool(false)) => {},
        Some(JsonValue::Bool(true)) => {
            push_finding(
                findings,
                finding(
                    ToolSchemaCompatibilitySeverity::Error,
                    "widget_accessible_true_for_tool_only",
                    tool_name,
                    widget_path.as_str(),
                    "Tool-only descriptor enables widget-originated tool calls without an Apps SDK UI template.",
                    TOOL_ONLY_UI_HINT,
                    Some(JsonValue::Bool(true)),
                ),
            );
        },
        Some(v) => {
            push_finding(
                findings,
                finding(
                    ToolSchemaCompatibilitySeverity::Error,
                    "widget_accessible_not_boolean",
                    tool_name,
                    widget_path.as_str(),
                    "`_meta.openai/widgetAccessible` is not a boolean.",
                    TOOL_ONLY_UI_HINT,
                    Some(v.deep_clone()),
                ),
            );
        },
    }
    let ghost f1 = findings_view(findings@);
    let visibility_path = path_join(meta_path, "/ui/visibility");
    match pointer2_exec(meta, "ui", "visibility") {
        Some(v) => {
            if visibility_includes(v, false) {
                if visibility_includes(v, true) {
                    push_finding(
                        findings,
                        finding(
                            ToolSchemaCompatibilitySeverity::Warning,
                            "tool_only_ui_visibility_includes_app",
                            tool_name,
                            visibility_path.as_str(),
                            "Tool-only descriptor explicitly includes app visibility without an Apps SDK UI template.",
                            TOOL_ONLY_UI_HINT,
                            Some(v.deep_clone()),
                        ),
                    );
                }
            } else {
                push_finding(
                    findings,
                    finding(
                        ToolSchemaCompatibilitySeverity::Error,
                        "ui_visibility_excludes_model",
                        tool_name,
                        visibility_path.as_str(),
                        "Tool-only descriptor UI visibility excludes the model.",
                        TOOL_ONLY_UI_HINT,
                        Some(v.deep_clone()),
                    ),
                );
            }
        },
        None => {},
    }
    let ghost f2 = findings_view(findings@);
    if has_apps_ui {
        push_finding(
            findings,
            finding(
                ToolSchemaCompatibilitySeverity::Error,
                "tool_only_ui_template_present",
                tool_name,
                meta_path,
                "Tool-only descriptor advertised Apps SDK UI template metadata.",
                "Use descriptor_profile=apps_sdk_ui for UI-backed tools, or remove the UI template metadata from tool-only connectors.",
                Some(meta.deep_clone()),
            ),
        );
    }
    proof {
        let widget = f1.subrange(before.len() as int, f1.len() as int);
        let vis = f2.subrange(f1.len() as int, f2.len() as int);
        let tmpl = findings_view(findings@).subrange(f2.len() as int, findings_view(findings@).len() as int);
        assert(findings_view(findings@) =~= before + (widget + vis + tmpl));
        assert(widget + vis + tmpl =~= tool_only_ui_findings(tool_name@, meta_path@, meta@, has_apps_ui));
    }
}

/// The findings about UI metadata on an Apps SDK UI descriptor.
#[verifier::opaque]
pub open spec fn apps_ui_findings(tool_name: Seq<char>, meta_path: Seq<char>, meta: Json) -> Seq<
    FindingModel,
> {
    let widget_path = meta_path + "/"@ + escape_pointer("openai/widgetAccessible"@);
    let widget = match json_get(meta, "openai/widgetAccessible"@) {
        Some(v) => if v is Bool {
            Seq::empty()
        } else {
            seq![
                error_finding(
                    "widget_accessible_not_boolean"@,
                    tool_name,
                    widget_path,
                    "`_meta.openai/widgetAccessible` is not a boolean."@,
                    APPS_SDK_UI_HINT@,
                    Some(v),
                ),
            ]
        },
        None => Seq::empty(),
    };
    let visibility_path = meta_path + "/ui/visibility"@;
    let visibility = match pointer2(meta, "ui"@, "visibility"@) {
        Some(v) => if visibility_contains(v, |s: Seq<char>| is_app_visibility(s)) {
            Seq::empty()
        } else {
            seq![
                error_finding(
                    "ui_visibility_excludes_app"@,
                    tool_name,
                    visibility_path,
                    "Apps SDK UI descriptor visibility excludes the app."@,
                    APPS_SDK_UI_HINT@,
                    Some(v),
                ),
            ]
        },
        None => Seq::empty(),
    };
    widget + visibility
}

fn audit_apps_sdk_ui_metadata(
    tool_name: &str,
    meta_path: &str,
    meta: &JsonValue,
    findings: &mut Vec<ToolSchemaCompatibilityFinding>,
)
    ensures
        findings_view(final(findings)@) == findings_view(old(findings)@) + apps_ui_findings(
            tool_name@,
            meta_path@,
            meta@,
        ),
{
    proof {
        reveal(apps_ui_findings);
    }
    let ghost before = findings_view(findings@);
    let widget_path = path_join3(
        meta_path,
        "/",
        escape_json_pointer("openai/widgetAccessible").as_str(),
    );
    match meta.get("openai/widgetAccessible") {
        Some(v) => {
            if !v.is_boolean() {
                push_finding(
                    findings,
                    finding(
                        ToolSchemaCompatibilitySeverity::Error,
                        "widget_accessible_not_boolean",
                        tool_name,
                        widget_path.as_str(),
                        "`_meta.openai/widgetAccessible` is not a boolean.",
                        APPS_SDK_UI_HINT,
                        Some(v.deep_clone()),
                    ),
                );
            }
        },
        None => {},
    }
    let ghost f1 = findings_view(findings@);
    let visibility_path = path_join(meta_path, "/ui/visibility");
    match pointer2_exec(meta, "ui", "visibility") {
        Some(v) => {
            if !visibility_includes(v, true) {
                push_finding(
                    findings,
                    finding(
                        ToolSchemaCompatibilitySeverity::Error,
                        "ui_visibility_excludes_app",
                        tool_name,
                        visibility_path.as_str(),
                        "Apps SDK UI descriptor visibility excludes the app.",
                        APPS_SDK_UI_HINT,
                        Some(v.deep_clone()),
                    ),
                );
            }
        },
        None => {},
    }
    proof {
        let widget = f1.subrange(before.len() as int, f1.len() as int);
        let vis = findings_view(findings@).subrange(f1.len() as int, findings_view(findings@).len() as int);
        assert(findings_view(findings@) =~= before + (widget + vis));
        assert(widget + vis =~= apps_ui_findings(tool_name@, meta_path@, meta@));
    }
}


/// The findings about a tool's `_meta` compatibility metadata.
pub open spec fn meta_findings(
    tool_name: Seq<char>,
    index: int,
    tool: Json,
    profile: ToolDescriptorProfile,
) -> Seq<FindingModel> {
    let path = tool_path(index, "_meta"@);
    match json_get(tool, "_meta"@) {
        None => seq![
            error_finding(
                "_meta_missing"@,
                tool_name,
                path,
                "Tool descriptor is missing `_meta` compatibility metadata."@,
                SECURITY_SCHEMES_HINT@,
                Some(tool),
            ),
        ],
        Some(meta) => if !is_object(meta) {
            seq![
                error_finding(
                    "_meta_not_object"@,
                    tool_name,
                    path,
                    "Tool `_meta` is not an object."@,
                    SECURITY_SCHEMES_HINT@,
                    Some(meta),
                ),
            ]
        } else {
            let ui = has_ui_template(meta);
            security_scheme_findings(tool_name, path, meta) + invocation_key_findings(
                tool_name,
                path,
                meta,
                "openai/toolInvocation/invoking"@,
            ) + invocation_key_findings(tool_name, path, meta, "openai/toolInvocation/invoked"@)
                + if profile == ToolDescriptorProfile::ChatgptTool {
                tool_only_ui_findings(tool_name, path, meta, ui)
            } else if profile == ToolDescriptorProfile::AppsSdkUi && ui {
                apps_ui_findings(tool_name, path, meta)
            } else {
                Seq::empty()
            }
        },
    }
}

/// The tool advertises an Apps SDK UI template in object-shaped `_meta`.
pub open spec fn tool_has_ui(tool: Json) -> bool {
    match json_get(tool, "_meta"@) {
        Some(meta) => is_object(meta) && has_ui_template(meta),
        None => false,
    }
}

#[verifier::rlimit(30)]
fn audit_meta(
    tool_name: &str,
    index: usize,
    tool: &JsonValue,
    profile: ToolDescriptorProfile,
    findings: &mut Vec<ToolSchemaCompatibilityFinding>,
) -> (has_ui: bool)
    ensures
        findings_view(final(findings)@) == findings_view(old(findings)@) + meta_findings(
            tool_name@,
            index as int,
            tool@,
            profile,
        ),
        has_ui == tool_has_ui(tool@),
{
    let ghost before = findings_view(findings@);
    let path = tool_path_exec(index, "_meta");
    match tool.get("_meta") {
        None => {
            push_finding(
                findings,
                finding(
                    ToolSchemaCompatibilitySeverity::Error,
                    "_meta_missing",
                    tool_name,
                    path.as_str(),
                    "Tool descriptor is missing `_meta` compatibility metadata.",
                    SECURITY_SCHEMES_HINT,
                    Some(tool.deep_clone()),
                ),
            );
            assert(findings_view(findings@) =~= before + meta_findings(tool_name@, index as int, tool@, profile));
            false
        },
        Some(meta) => {
            if !meta.is_object() {
                push_finding(
                    findings,
                    finding(
                        ToolSchemaCompatibilitySeverity::Error,
                        "_meta_not_object",
                        tool_name,
                        path.as_str(),
                        "Tool `_meta` is not an object.",
                        SECURITY_SCHEMES_HINT,
                        Some(meta.deep_clone()),
                    ),
                );
                assert(findings_view(findings@) =~= before + meta_findings(tool_name@, index as int, tool@, profile));
                return false;
            }
            audit_security_schemes(tool_name, path.as_str(), meta, findings);
            let ghost f1 = findings_view(findings@);
            audit_invocation_key(tool_name, path.as_str(), meta, "openai/toolInvocation/invoking", findings);
            let ghost f2 = findings_view(findings@);
            audit_invocation_key(tool_name, path.as_str(), meta, "openai/toolInvocation/invoked", findings);
            let ghost f3 = findings_view(findings@);
            let has_ui = has_apps_sdk_ui_template(meta);
            if profile == ToolDescriptorProfile::ChatgptTool {
                audit_tool_only_ui_metadata(tool_name, path.as_str(), meta, has_ui, findings);
            } else if profile == ToolDescriptorProfile::AppsSdkUi && has_ui {
                audit_apps_sdk_ui_metadata(tool_name, path.as_str(), meta, findings);
            }
            proof {
                let all = findings_view(findings@);
                let p1 = f1.subrange(before.len() as int, f1.len() as int);
                let p2 = f2.subrange(f1.len() as int, f2.len() as int);
                let p3 = f3.subrange(f2.len() as int, f3.len() as int);
                let p4 = all.subrange(f3.len() as int, all.len() as int);
                assert(p4 =~= if profile == ToolDescriptorProfile::ChatgptTool {
                    tool_only_ui_findings(tool_name@, path@, meta@, has_ui)
                } else if profile == ToolDescriptorProfile::AppsSdkUi && has_ui {
                    apps_ui_findings(tool_name@, path@, meta@)
                } else {
                    Seq::<FindingModel>::empty()
                });
                assert(all =~= before + (p1 + p2 + p3 + p4));
            }
            has_ui
        },
    }
}

/// The findings about a ChatGPT descriptor's metadata.
pub open spec fn descriptor_findings(
    tool_name: Seq<char>,
    index: int,
    tool: Json,
    profile: ToolDescriptorProfile,
) -> Seq<FindingModel> {
    output_schema_findings(tool_name, index, tool) + annotation_findings(tool_name, index, tool)
        + meta_findings(tool_name, index, tool, profile)
}

/// The name a tool is reported under: its non-blank `name`, else
/// `<unnamed>`.
pub open spec fn tool_display_name(tool: Json) -> Seq<char> {
    match json_get(tool, "name"@) {
        Some(Json::Str(n)) => if crate::text::is_blank(n) {
            "<unnamed>"@
        } else {
            n
        },
        _ => "<unnamed>"@,
    }
}

/// The findings about one advertised tool.
pub open spec fn one_tool_findings(profile: ToolDescriptorProfile, index: int, tool: Json) -> Seq<
    FindingModel,
> {
    let name = tool_display_name(tool);
    let path = tool_path(index, "inputSchema"@);
    let input = match json_get(tool, "inputSchema"@) {
        Some(schema) => node_findings(name, path, schema),
        None => seq![
            error_finding(
                "input_schema_missing"@,
                name,
                path,
                "Tool descriptor is missing inputSchema."@,
                INPUT_SCHEMA_HINT@,
                Some(tool),
            ),
        ],
    };
    input + if profile is ChatgptTool || profile is AppsSdkUi {
        descriptor_findings(name, index, tool, profile)
    } else {
        Seq::empty()
    }
}

/// The findings about every advertised tool, in order.
pub open spec fn tools_findings(profile: ToolDescriptorProfile, tools: Seq<Json>) -> Seq<FindingModel>
    decreases tools.len(),
{
    if tools.len() == 0 {
        Seq::empty()
    } else {
        tools_findings(profile, tools.drop_last()) + one_tool_findings(
            profile,
            tools.len() - 1,
            tools.last(),
        )
    }
}

/// The tool list of a `tools/list` result: its `tools` array, or the value
/// itself when that is an array.
pub open spec fn extract_tools(v: Json) -> Option<Seq<Json>> {
    match json_get(v, "tools"@) {
        Some(Json::Array(t)) => Some(t),
        _ => json_as_array(v),
    }
}

/// The findings of the tool schema compatibility audit.
pub open spec fn audit_findings(response: Json, profile: ToolDescriptorProfile) -> Seq<FindingModel> {
    match extract_tools(response) {
        None => seq![
            error_finding(
                "tools_list_shape_invalid"@,
                "<tools/list>"@,
                ""@,
                "tools/list response did not contain a `tools` array."@,
                "Inspect the raw tools/list response; MCP clients expect a list result with a `tools` array."@,
                Some(response),
            ),
        ],
        Some(tools) => tools_findings(profile, tools) + if profile is AppsSdkUi && !(exists|i: int|
            0 <= i < tools.len() && tool_has_ui(#[trigger] tools[i])) {
            seq![
                error_finding(
                    "apps_sdk_ui_template_missing"@,
                    "<tools/list>"@,
                    "/tools"@,
                    "No tool descriptor advertised an Apps SDK UI template."@,
                    APPS_SDK_UI_HINT@,
                    Some(response),
                ),
            ]
        } else {
            Seq::empty()
        },
    }
}

fn audit_one_tool(
    index: usize,
    tool: &JsonValue,
    profile: ToolDescriptorProfile,
    findings: &mut Vec<ToolSchemaCompatibilityFinding>,
) -> (has_ui: bool)
    ensures
        findings_view(final(findings)@) == findings_view(old(findings)@) + one_tool_findings(
            profile,
            index as int,
            tool@,
        ),
        (profile is ChatgptTool || profile is AppsSdkUi) ==> has_ui == tool_has_ui(tool@),
{
    let ghost before = findings_view(findings@);
    let name: &str = match tool.get("name") {
        Some(JsonValue::String(n)) => if crate::text::is_blank_str(n.as_str()) {
            "<unnamed>"
        } else {
            n.as_str()
        },
        _ => "<unnamed>",
    };
    assert(name@ == tool_display_name(tool@));
    let path = tool_path_exec(index, "inputSchema");
    match tool.get("inputSchema") {
        Some(schema) => audit_schema_node(name, path.as_str(), schema, findings),
        None => {
            push_finding(
                findings,
                finding(
                    ToolSchemaCompatibilitySeverity::Error,
                    "input_schema_missing",
                    name,
                    path.as_str(),
                    "Tool descriptor is missing inputSchema.",
                    INPUT_SCHEMA_HINT,
                    Some(tool.deep_clone()),
                ),
            );
            assert(findings_view(findings@) =~= before + seq![error_finding(
                "input_schema_missing"@,
                name@,
                path@,
                "Tool descriptor is missing inputSchema."@,
                INPUT_SCHEMA_HINT@,
                Some(tool@),
            )]);
        },
    }
    let ghost f1 = findings_view(findings@);
    let mut has_ui = false;
    if profile.requires_chatgpt_metadata() {
        audit_output_schema(name, index, tool, findings);
        audit_annotations(name, index, tool, findings);
        has_ui = audit_meta(name, index, tool, profile, findings);
        proof {
            let all = findings_view(findings@);
            assert(all =~= f1 + descriptor_findings(name@, index as int, tool@, profile));
        }
    } else {
        assert(f1 + Seq::<FindingModel>::empty() =~= f1);
    }
    proof {
        let input = f1.subrange(before.len() as int, f1.len() as int);
        assert(f1 =~= before + input);
        crate::text::lemma_concat_assoc3(before, input, findings_view(findings@).subrange(f1.len() as int, findings_view(findings@).len() as int));
        assert(findings_view(findings@) =~= before + one_tool_findings(profile, index as int, tool@));
    }
    has_ui
}

/// Audit the advertised tool schemas of a `tools/list` result under a
/// descriptor profile.
#[verifier::loop_isolation(false)]
pub fn audit_tool_schema_compatibility_for_profile(
    tools_response: &JsonValue,
    descriptor_profile: ToolDescriptorProfile,
) -> (r: Vec<ToolSchemaCompatibilityFinding>)
    ensures
        findings_view(r@) == audit_findings(tools_response@, descriptor_profile),
{
    let mut findings: Vec<ToolSchemaCompatibilityFinding> = Vec::new();
    let tools: &Vec<JsonValue> = match tools_response.get("tools") {
        Some(JsonValue::Array(t)) => t,
        _ => match tools_response.as_array() {
            Some(t) => t,
            None => {
                push_finding(
                    &mut findings,
                    finding(
                        ToolSchemaCompatibilitySeverity::Error,
                        "tools_list_shape_invalid",
                        "<tools/list>",
                        "",
                        "tools/list response did not contain a `tools` array.",
                        "Inspect the raw tools/list response; MCP clients expect a list result with a `tools` array.",
                        Some(tools_response.deep_clone()),
                    ),
                );
                assert(findings_view(findings@) =~= audit_findings(tools_response@, descriptor_profile));
                return findings;
            },
        },
    };
    let ghost tv = view_items(tools@);
    proof {
        lemma_view_items(tools@);
        assert(extract_tools(tools_response@) == Some(tv));
        assert(findings_view(findings@) =~= Seq::<FindingModel>::empty());
        assert(tv.subrange(0, 0) =~= Seq::<Json>::empty());
    }
    let mut ui_count: usize = 0;
    let mut i: usize = 0;
    while i < tools.len()
        invariant
            i <= tools@.len(),
            tv.len() == tools@.len(),
            forall|k: int| 0 <= k < tools@.len() ==> #[trigger] tv[k] == view_json(tools@[k]),
            findings_view(findings@) == tools_findings(descriptor_profile, tv.subrange(0, i as int)),
            ui_count <= i,
            (descriptor_profile is ChatgptTool || descriptor_profile is AppsSdkUi) ==> ((ui_count
                == 0) <==> !(exists|j: int| 0 <= j < i && tool_has_ui(#[trigger] tv[j]))),
        decreases tools@.len() - i,
    {
        assert(tv[i as int] == tools@[i as int]@);
        let has_ui = audit_one_tool(i, &tools[i], descriptor_profile, &mut findings);
        if has_ui && ui_count < usize::MAX {
            ui_count = ui_count + 1;
        }
        proof {
            let sub = tv.subrange(0, i + 1);
            assert(sub.drop_last() =~= tv.subrange(0, i as int));
            assert(sub.last() == tv[i as int]);
            if descriptor_profile is ChatgptTool || descriptor_profile is AppsSdkUi {
                if has_ui {
                    assert(tool_has_ui(tv[i as int]));
                }
                if exists|j: int| 0 <= j < i + 1 && tool_has_ui(#[trigger] tv[j]) {
                    let j = choose|j: int| 0 <= j < i + 1 && tool_has_ui(#[trigger] tv[j]);
                    if j == i {
                    } else {
                        assert(exists|j: int| 0 <= j < i && tool_has_ui(#[trigger] tv[j]));
                    }
                }
            }
        }
        i = i + 1;
    }
    proof {
        assert(tv.subrange(0, i as int) =~= tv);
    }
    let ghost fv = findings_view(findings@);
    if descriptor_profile.requires_apps_sdk_ui() && ui_count == 0 {
        push_finding(
            &mut findings,
            finding(
                ToolSchemaCompatibilitySeverity::Error,
                "apps_sdk_ui_template_missing",
                "<tools/list>",
                "/tools",
                "No tool descriptor advertised an Apps SDK UI template.",
                APPS_SDK_UI_HINT,
                Some(tools_response.deep_clone()),
            ),
        );
    } else {
        assert(fv + Seq::<FindingModel>::empty() =~= fv);
    }
    findings
}

/// Audit the advertised tool schemas under the basic profile.
pub fn audit_tool_schema_compatibility(tools_response: &JsonValue) -> (r: Vec<
    ToolSchemaCompatibilityFinding,
>)
    ensures
        findings_view(r@) == audit_findings(tools_response@, ToolDescriptorProfile::Basic),
{
    audit_tool_schema_compatibility_for_profile(tools_response, ToolDescriptorProfile::Basic)
}


/// Name of the probe step that carries the tool schema audit.
pub const TOOL_SCHEMA_COMPATIBILITY_STEP: &'static str = "tools.schema_compatibility";

/// The number of error findings.
pub open spec fn error_count(fs: Seq<FindingModel>) -> nat
    decreases fs.len(),
{
    if fs.len() == 0 {
        0
    } else {
        error_count(fs.drop_last()) + if fs.last().severity == ToolSchemaCompatibilitySeverity::Error {
            1nat
        } else {
            0nat
        }
    }
}

/// The wire name of a severity.
pub open spec fn severity_name(s: ToolSchemaCompatibilitySeverity) -> Seq<char> {
    match s {
        ToolSchemaCompatibilitySeverity::Error => "error"@,
        ToolSchemaCompatibilitySeverity::Warning => "warning"@,
    }
}

/// A finding as a JSON object (keys in sorted order, `fragment` omitted
/// when absent).
pub open spec fn finding_json(f: FindingModel) -> Json {
    let head = seq![("code"@, Json::Str(f.code))];
    let with_fragment = match f.fragment {
        Some(v) => head.push(("fragment"@, v)),
        None => head,
    };
    Json::Object(
        with_fragment + seq![
            ("hint"@, Json::Str(f.hint)),
            ("message"@, Json::Str(f.message)),
            ("schema_path"@, Json::Str(f.schema_path)),
            ("severity"@, Json::Str(severity_name(f.severity))),
            ("tool_name"@, Json::Str(f.tool_name)),
        ],
    )
}

/// The audit step's data: counts and the findings themselves.
pub open spec fn step_data(fs: Seq<FindingModel>) -> Json {
    Json::Object(
        seq![
            ("error_count"@, Json::Number(decimal(error_count(fs)))),
            ("findings"@, Json::Array(fs.map_values(|f: FindingModel| finding_json(f)))),
            ("warning_count"@, Json::Number(decimal((fs.len() - error_count(fs)) as nat))),
        ],
    )
}

proof fn lemma_error_count_bound(fs: Seq<FindingModel>)
    ensures
        error_count(fs) <= fs.len(),
    decreases fs.len(),
{
    if fs.len() > 0 {
        lemma_error_count_bound(fs.drop_last());
    }
}

fn finding_to_json(f: &ToolSchemaCompatibilityFinding) -> (r: JsonValue)
    ensures
        r@ == finding_json(finding_view(*f)),
{
    let mut entries: Vec<(String, JsonValue)> = Vec::new();
    entries.push((String::from_str("code"), JsonValue::String(f.code.clone())));
    match &f.fragment {
        Some(v) => entries.push((String::from_str("fragment"), v.deep_clone())),
        None => {},
    }
    entries.push((String::from_str("hint"), JsonValue::String(f.hint.clone())));
    entries.push((String::from_str("message"), JsonValue::String(f.message.clone())));
    entries.push((String::from_str("schema_path"), JsonValue::String(f.schema_path.clone())));
    let sev = match f.severity {
        ToolSchemaCompatibilitySeverity::Error => "error",
        ToolSchemaCompatibilitySeverity::Warning => "warning",
    };
    entries.push((String::from_str("severity"), JsonValue::String(String::from_str(sev))));
    entries.push((String::from_str("tool_name"), JsonValue::String(f.tool_name.clone())));
    let r = JsonValue::Object(entries);
    proof {
        crate::json::lemma_view_entries(entries@);
        assert(view_entries(entries@) =~= match finding_json(finding_view(*f)) {
            Json::Object(es) => es,
            _ => Seq::empty(),
        });
    }
    r
}

/// The probe step that reports a list of findings.
pub open spec fn schema_step_matches(step: crate::report::ProbeStep, fs: Seq<FindingModel>) -> bool {
    let errors = error_count(fs);
    let warnings = (fs.len() - errors) as nat;
    &&& step.name@ == TOOL_SCHEMA_COMPATIBILITY_STEP@
    &&& step.status == (if errors > 0 {
        crate::report::ProbeStepStatus::Error
    } else {
        crate::report::ProbeStepStatus::Passed
    })
    &&& crate::text::opt_view(step.detail) == (if errors > 0 {
        Some(decimal(errors) + " tool schema compatibility error(s); see data.findings"@)
    } else if warnings > 0 {
        Some(decimal(warnings) + " tool schema compatibility warning(s); see data.findings"@)
    } else {
        None
    })
    &&& match step.data {
        Some(d) => fs.len() > 0 && d@ == step_data(fs),
        None => fs.len() == 0,
    }
}

/// Build the probe step that audits the advertised `tools/list` schema
/// payload under a descriptor profile.
#[verifier::loop_isolation(false)]
pub fn build_tool_schema_compatibility_step_for_profile(
    tools_response: &JsonValue,
    descriptor_profile: ToolDescriptorProfile,
) -> (r: crate::report::ProbeStep)
    ensures
        schema_step_matches(r, audit_findings(tools_response@, descriptor_profile)),
{
    let findings = audit_tool_schema_compatibility_for_profile(tools_response, descriptor_profile);
    let ghost fs = findings_view(findings@);
    let mut errors: usize = 0;
    let mut items: Vec<JsonValue> = Vec::new();
    let mut i: usize = 0;
    while i < findings.len()
        invariant
            i <= findings@.len(),
            fs == findings_view(findings@),
            errors == error_count(fs.subrange(0, i as int)),
            errors <= i,
            view_items(items@) == fs.subrange(0, i as int).map_values(|f: FindingModel| finding_json(f)),
        decreases findings@.len() - i,
    {
        proof {
            assert(fs.subrange(0, i + 1).drop_last() =~= fs.subrange(0, i as int));
            assert(fs[i as int] == finding_view(findings@[i as int]));
        }
        if findings[i].severity == ToolSchemaCompatibilitySeverity::Error {
            errors = errors + 1;
        }
        let j = finding_to_json(&findings[i]);
        let ghost before = items@;
        items.push(j);
        proof {
            assert(items@.drop_last() =~= before);
            assert(view_items(items@) =~= fs.subrange(0, i + 1).map_values(|f: FindingModel| finding_json(f)));
        }
        i = i + 1;
    }
    proof {
        assert(fs.subrange(0, i as int) =~= fs);
        lemma_error_count_bound(fs);
    }
    let warnings = findings.len() - errors;
    let detail = if errors > 0 {
        let mut d = fmt_usize(errors);
        d.append(" tool schema compatibility error(s); see data.findings");
        Some(d)
    } else if warnings > 0 {
        let mut d = fmt_usize(warnings);
        d.append(" tool schema compatibility warning(s); see data.findings");
        Some(d)
    } else {
        None
    };
    let data = if findings.len() == 0 {
        None
    } else {
        let mut entries: Vec<(String, JsonValue)> = Vec::new();
        entries.push((String::from_str("error_count"), JsonValue::Number(fmt_usize(errors))));
        entries.push((String::from_str("findings"), JsonValue::Array(items)));
        entries.push((String::from_str("warning_count"), JsonValue::Number(fmt_usize(warnings))));
        proof {
            crate::json::lemma_view_entries(entries@);
            assert(view_entries(entries@) =~= match step_data(fs) {
                Json::Object(es) => es,
                _ => Seq::empty(),
            });
        }
        Some(JsonValue::Object(entries))
    };
    crate::report::ProbeStep {
        name: String::from_str(TOOL_SCHEMA_COMPATIBILITY_STEP),
        status: if errors > 0 {
            crate::report::ProbeStepStatus::Error
        } else {
            crate::report::ProbeStepStatus::Passed
        },
        detail,
        data,
    }
}

/// Build the tool schema audit step under the basic profile.
pub fn build_tool_schema_compatibility_step(tools_response: &JsonValue) -> (r: crate::report::ProbeStep)
    ensures
        schema_step_matches(r, audit_findings(tools_response@, ToolDescriptorProfile::Basic)),
{
    build_tool_schema_compatibility_step_for_profile(tools_response, ToolDescriptorProfile::Basic)
}

/// `f` places the items of `a`, in order, among the items of `b`.
pub open spec fn embeds(a: Seq<FindingModel>, b: Seq<FindingModel>, f: spec_fn(int) -> int) -> bool {
    &&& forall|i: int| 0 <= i < a.len() ==> 0 <= #[trigger] f(i) < b.len() && b[f(i)] == a[i]
    &&& forall|i: int, j: int| 0 <= i < j < a.len() ==> #[trigger] f(i) < #[trigger] f(j)
}

/// `a` is `b` with some items left out.
pub open spec fn subseq_of(a: Seq<FindingModel>, b: Seq<FindingModel>) -> bool {
    exists|f: spec_fn(int) -> int| embeds(a, b, f)
}

proof fn lemma_subseq_prefix(a: Seq<FindingModel>, c: Seq<FindingModel>)
    ensures
        subseq_of(a, a + c),
{
    let f = |i: int| i;
    assert(embeds(a, a + c, f));
}

proof fn lemma_subseq_concat(a1: Seq<FindingModel>, b1: Seq<FindingModel>, a2: Seq<FindingModel>, b2: Seq<FindingModel>)
    requires
        subseq_of(a1, b1),
        subseq_of(a2, b2),
    ensures
        subseq_of(a1 + a2, b1 + b2),
{
    let f1 = choose|f: spec_fn(int) -> int| embeds(a1, b1, f);
    let f2 = choose|f: spec_fn(int) -> int| embeds(a2, b2, f);
    let n1 = a1.len() as int;
    let m1 = b1.len() as int;
    let f = |i: int| if i < n1 { f1(i) } else { m1 + f2(i - n1) };
    let a = a1 + a2;
    let b = b1 + b2;
    assert forall|i: int| 0 <= i < a.len() implies 0 <= #[trigger] f(i) < b.len() && b[f(i)] == a[i] by {
        if i < n1 {
            assert(0 <= f1(i) < b1.len() && b1[f1(i)] == a1[i]);
        } else {
            assert(0 <= f2(i - n1) < b2.len() && b2[f2(i - n1)] == a2[i - n1]);
        }
    }
    assert forall|i: int, j: int| 0 <= i < j < a.len() implies #[trigger] f(i) < #[trigger] f(j) by {
        if j < n1 {
            assert(f1(i) < f1(j));
        } else if i < n1 {
            assert(0 <= f1(i) < b1.len());
            assert(0 <= f2(j - n1) < b2.len());
        } else {
            assert(f2(i - n1) < f2(j - n1));
        }
    }
    assert(embeds(a, b, f));
}

proof fn lemma_tools_findings_subseq(tools: Seq<Json>, profile: ToolDescriptorProfile)
    ensures
        subseq_of(tools_findings(ToolDescriptorProfile::Basic, tools), tools_findings(profile, tools)),
    decreases tools.len(),
{
    if tools.len() == 0 {
        lemma_subseq_prefix(Seq::empty(), Seq::empty());
        assert(Seq::<FindingModel>::empty() + Seq::<FindingModel>::empty() =~= Seq::<FindingModel>::empty());
    } else {
        let t = tools.drop_last();
        lemma_tools_findings_subseq(t, profile);
        let k = tools.len() - 1;
        let basic = one_tool_findings(ToolDescriptorProfile::Basic, k, tools.last());
        let full = one_tool_findings(profile, k, tools.last());
        let extra = if profile is ChatgptTool || profile is AppsSdkUi {
            descriptor_findings(tool_display_name(tools.last()), k, tools.last(), profile)
        } else {
            Seq::empty()
        };
        assert(basic + Seq::<FindingModel>::empty() =~= basic);
        assert(full == basic + extra);
        lemma_subseq_prefix(basic, extra);
        lemma_subseq_concat(
            tools_findings(ToolDescriptorProfile::Basic, t),
            tools_findings(profile, t),
            basic,
            full,
        );
    }
}

/// A stricter descriptor profile only adds findings: the audit under the
/// basic profile is the audit under any profile with some findings left
/// out, in the same order.
pub proof fn lemma_stricter_profile_adds_findings(response: Json, profile: ToolDescriptorProfile)
    ensures
        subseq_of(audit_findings(response, ToolDescriptorProfile::Basic), audit_findings(response, profile)),
{
    match extract_tools(response) {
        None => {
            let a = audit_findings(response, profile);
            lemma_subseq_prefix(a, Seq::empty());
            assert(a + Seq::<FindingModel>::empty() =~= a);
        },
        Some(tools) => {
            lemma_tools_findings_subseq(tools, profile);
            let b = tools_findings(ToolDescriptorProfile::Basic, tools);
            let p = tools_findings(profile, tools);
            let suffix = audit_findings(response, profile).subrange(p.len() as int, audit_findings(response, profile).len() as int);
            assert(audit_findings(response, ToolDescriptorProfile::Basic) =~= b);
            assert(audit_findings(response, profile) =~= p + suffix);
            lemma_subseq_prefix(Seq::empty(), suffix);
            assert(Seq::<FindingModel>::empty() + suffix =~= suffix);
            lemma_subseq_concat(b, p, Seq::empty(), suffix);
            assert(b + Seq::<FindingModel>::empty() =~= b);
        },
    }
}

/// A finding code the basic profile may give: none of those of the
/// descriptor and UI checks.
pub open spec fn basic_code(c: Seq<char>) -> bool {
    c != "output_schema_missing"@ && c != "annotations_missing"@ && c != "_meta_missing"@
        && c != "apps_sdk_ui_template_missing"@
}

/// Every finding has a code the basic profile may give.
pub open spec fn basic_codes(fs: Seq<FindingModel>) -> bool {
    forall|i: int| 0 <= i < fs.len() ==> basic_code(#[trigger] fs[i].code)
}

proof fn lemma_basic_code_literals()
    ensures
        basic_code("boolean_schema"@),
        basic_code("schema_node_not_object"@),
        basic_code("input_schema_root_not_object"@),
        basic_code("array_items_not_object"@),
        basic_code("array_items_missing"@),
        basic_code("input_schema_missing"@),
        basic_code("tools_list_shape_invalid"@),
{
    assert(basic_code("boolean_schema"@) && basic_code("schema_node_not_object"@)
        && basic_code("input_schema_root_not_object"@) && basic_code("array_items_not_object"@)
        && basic_code("array_items_missing"@) && basic_code("input_schema_missing"@)
        && basic_code("tools_list_shape_invalid"@)) by {
        reveal_strlit("output_schema_missing");
        reveal_strlit("annotations_missing");
        reveal_strlit("_meta_missing");
        reveal_strlit("apps_sdk_ui_template_missing");
        reveal_strlit("boolean_schema");
        reveal_strlit("schema_node_not_object");
        reveal_strlit("input_schema_root_not_object");
        reveal_strlit("array_items_not_object");
        reveal_strlit("array_items_missing");
        reveal_strlit("input_schema_missing");
        reveal_strlit("tools_list_shape_invalid");
        assert("boolean_schema"@.len() != "output_schema_missing"@.len());
        assert("boolean_schema"@.len() != "annotations_missing"@.len());
        assert("boolean_schema"@.len() != "_meta_missing"@.len());
        assert("boolean_schema"@.len() != "apps_sdk_ui_template_missing"@.len());
        assert("schema_node_not_object"@.len() != "output_schema_missing"@.len());
        assert("schema_node_not_object"@.len() != "annotations_missing"@.len());
        assert("schema_node_not_object"@.len() != "_meta_missing"@.len());
        assert("schema_node_not_object"@.len() != "apps_sdk_ui_template_missing"@.len());
        assert("input_schema_root_not_object"@.len() != "output_schema_missing"@.len());
        assert("input_schema_root_not_object"@.len() != "annotations_missing"@.len());
        assert("input_schema_root_not_object"@.len() != "_meta_missing"@.len());
        crate::text::lemma_differ_at("input_schema_root_not_object"@, "apps_sdk_ui_template_missing"@, 0);
        assert("array_items_not_object"@.len() != "output_schema_missing"@.len());
        assert("array_items_not_object"@.len() != "annotations_missing"@.len());
        assert("array_items_not_object"@.len() != "_meta_missing"@.len());
        assert("array_items_not_object"@.len() != "apps_sdk_ui_template_missing"@.len());
        assert("array_items_missing"@.len() != "output_schema_missing"@.len());
        crate::text::lemma_differ_at("array_items_missing"@, "annotations_missing"@, 1);
        assert("array_items_missing"@.len() != "_meta_missing"@.len());
        assert("array_items_missing"@.len() != "apps_sdk_ui_template_missing"@.len());
        assert("input_schema_missing"@.len() != "output_schema_missing"@.len());
        assert("input_schema_missing"@.len() != "annotations_missing"@.len());
        assert("input_schema_missing"@.len() != "_meta_missing"@.len());
        assert("input_schema_missing"@.len() != "apps_sdk_ui_template_missing"@.len());
        assert("tools_list_shape_invalid"@.len() != "output_schema_missing"@.len());
        assert("tools_list_shape_invalid"@.len() != "annotations_missing"@.len());
        assert("tools_list_shape_invalid"@.len() != "_meta_missing"@.len());
        assert("tools_list_shape_invalid"@.len() != "apps_sdk_ui_template_missing"@.len());
    }
}

proof fn lemma_basic_concat(a: Seq<FindingModel>, b: Seq<FindingModel>)
    requires
        basic_codes(a),
        basic_codes(b),
    ensures
        basic_codes(a + b),
{
    assert forall|i: int| 0 <= i < (a + b).len() implies basic_code(#[trigger] (a + b)[i].code) by {
        if i < a.len() {
            assert((a + b)[i] == a[i]);
        } else {
            assert((a + b)[i] == b[i - a.len()]);
        }
    }
}

proof fn lemma_node_basic(tool: Seq<char>, path: Seq<char>, schema: Json)
    ensures
        basic_codes(node_findings(tool, path, schema)),
    decreases 8 * json_size(schema) + 7,
{
    reveal(node_findings);
    lemma_basic_code_literals();
    match schema {
        Json::Object(_) => lemma_object_basic(tool, path, schema),
        _ => {},
    }
}

proof fn lemma_object_basic(tool: Seq<char>, path: Seq<char>, schema: Json)
    ensures
        basic_codes(object_findings(tool, path, schema)),
    decreases 8 * json_size(schema) + 6,
{
    reveal(node_findings);
    lemma_basic_code_literals();
    let root = if ends_with(path, "/inputSchema"@) {
        root_object_findings(
            "input_schema_root_not_object"@,
            tool,
            path,
            schema,
            "Tool inputSchema root is not object-shaped."@,
            INPUT_SCHEMA_HINT@,
        )
    } else {
        Seq::empty()
    };
    let arr = if is_array_schema(schema) {
        array_items_findings(tool, path, schema)
    } else {
        Seq::empty()
    };
    let items = if is_array_schema(schema) {
        child_findings(tool, path, schema, "items"@)
    } else {
        Seq::empty()
    };
    if is_array_schema(schema) {
        lemma_child_basic(tool, path, schema, "items"@);
    }
    lemma_branch_basic(tool, path, schema, "anyOf"@);
    lemma_branch_basic(tool, path, schema, "oneOf"@);
    lemma_branch_basic(tool, path, schema, "allOf"@);
    lemma_named_basic(tool, path, schema, "properties"@);
    lemma_named_basic(tool, path, schema, "$defs"@);
    lemma_named_basic(tool, path, schema, "definitions"@);
    lemma_child_basic(tool, path, schema, "additionalProperties"@);
    lemma_basic_concat(root, arr);
    lemma_basic_concat(root + arr, branch_findings(tool, path, schema, "anyOf"@));
    lemma_basic_concat(root + arr + branch_findings(tool, path, schema, "anyOf"@), branch_findings(tool, path, schema, "oneOf"@));
    let s3 = root + arr + branch_findings(tool, path, schema, "anyOf"@) + branch_findings(tool, path, schema, "oneOf"@);
    lemma_basic_concat(s3, branch_findings(tool, path, schema, "allOf"@));
    let s4 = s3 + branch_findings(tool, path, schema, "allOf"@);
    lemma_basic_concat(s4, named_findings(tool, path, schema, "properties"@));
    let s5 = s4 + named_findings(tool, path, schema, "properties"@);
    lemma_basic_concat(s5, items);
    let s6 = s5 + items;
    lemma_basic_concat(s6, named_findings(tool, path, schema, "$defs"@));
    let s7 = s6 + named_findings(tool, path, schema, "$defs"@);
    lemma_basic_concat(s7, named_findings(tool, path, schema, "definitions"@));
    let s8 = s7 + named_findings(tool, path, schema, "definitions"@);
    lemma_basic_concat(s8, child_findings(tool, path, schema, "additionalProperties"@));
}

proof fn lemma_branch_basic(tool: Seq<char>, path: Seq<char>, schema: Json, kw: Seq<char>)
    ensures
        basic_codes(branch_findings(tool, path, schema, kw)),
    decreases 8 * json_size(schema) + 5,
{
    reveal(node_findings);
    lemma_get_smaller(schema, kw);
    match json_get(schema, kw) {
        Some(Json::Array(items)) => {
            assert(json_size(Json::Array(items)) < json_size(schema));
            lemma_list_basic(tool, path + "/"@ + kw + "/"@, items);
        },
        _ => {},
    }
}

proof fn lemma_named_basic(tool: Seq<char>, path: Seq<char>, schema: Json, kw: Seq<char>)
    ensures
        basic_codes(named_findings(tool, path, schema, kw)),
    decreases 8 * json_size(schema) + 5,
{
    reveal(node_findings);
    lemma_get_smaller(schema, kw);
    match json_get(schema, kw) {
        Some(Json::Object(es)) => {
            assert(json_size(Json::Object(es)) < json_size(schema));
            lemma_entry_basic(tool, path + "/"@ + kw + "/"@, es);
        },
        _ => {},
    }
}

proof fn lemma_child_basic(tool: Seq<char>, path: Seq<char>, schema: Json, kw: Seq<char>)
    ensures
        basic_codes(child_findings(tool, path, schema, kw)),
    decreases 8 * json_size(schema) + 5,
{
    reveal(node_findings);
    lemma_get_smaller(schema, kw);
    match json_get(schema, kw) {
        Some(Json::Object(es)) => lemma_node_basic(tool, path + "/"@ + kw, Json::Object(es)),
        _ => {},
    }
}

proof fn lemma_list_basic(tool: Seq<char>, base: Seq<char>, items: Seq<Json>)
    ensures
        basic_codes(list_findings(tool, base, items)),
    decreases 8 * items_size(items) + 13,
{
    reveal(node_findings);
    if items.len() > 0 {
        lemma_item_size(items, items.len() - 1);
        assert(items.subrange(0, items.len() - 1) =~= items.drop_last());
        lemma_list_basic(tool, base, items.drop_last());
        lemma_node_basic(tool, base + decimal((items.len() - 1) as nat), items.last());
        lemma_basic_concat(
            list_findings(tool, base, items.drop_last()),
            node_findings(tool, base + decimal((items.len() - 1) as nat), items.last()),
        );
    }
}

proof fn lemma_entry_basic(tool: Seq<char>, base: Seq<char>, es: Seq<(Seq<char>, Json)>)
    ensures
        basic_codes(entry_findings(tool, base, es)),
    decreases 8 * entries_size(es) + 13,
{
    reveal(node_findings);
    if es.len() > 0 {
        lemma_entry_size(es, es.len() - 1);
        lemma_entry_basic(tool, base, es.drop_last());
        lemma_node_basic(tool, base + escape_pointer(es.last().0), es.last().1);
        lemma_basic_concat(
            entry_findings(tool, base, es.drop_last()),
            node_findings(tool, base + escape_pointer(es.last().0), es.last().1),
        );
    }
}

proof fn lemma_tools_basic(tools: Seq<Json>)
    ensures
        basic_codes(tools_findings(ToolDescriptorProfile::Basic, tools)),
    decreases tools.len(),
{
    lemma_basic_code_literals();
    if tools.len() > 0 {
        let t = tools.drop_last();
        lemma_tools_basic(t);
        let k = tools.len() - 1;
        let tool = tools.last();
        let name = tool_display_name(tool);
        let path = tool_path(k, "inputSchema"@);
        match json_get(tool, "inputSchema"@) {
            Some(schema) => lemma_node_basic(name, path, schema),
            None => {},
        }
        let one = one_tool_findings(ToolDescriptorProfile::Basic, k, tool);
        assert(basic_codes(one));
        lemma_basic_concat(tools_findings(ToolDescriptorProfile::Basic, t), one);
    }
}

/// The basic profile never gives the findings of the descriptor and UI
/// checks: no `output_schema_missing`, `annotations_missing`,
/// `_meta_missing` or `apps_sdk_ui_template_missing`.
pub proof fn lemma_basic_profile_codes(response: Json)
    ensures
        basic_codes(audit_findings(response, ToolDescriptorProfile::Basic)),
{
    lemma_basic_code_literals();
    match extract_tools(response) {
        None => {},
        Some(tools) => {
            lemma_tools_basic(tools);
            assert(audit_findings(response, ToolDescriptorProfile::Basic) =~= tools_findings(ToolDescriptorProfile::Basic, tools));
        },
    }
}

// ---------------------------------------------------------------------------
// Where findings come from: every finding about a part of a tool (a nested
// schema, a descriptor key) appears in the audit of the whole listing.
// ---------------------------------------------------------------------------

proof fn lemma_in_left(a: Seq<FindingModel>, b: Seq<FindingModel>, f: FindingModel)
    requires
        a.contains(f),
    ensures
        (a + b).contains(f),
{
    let i = choose|i: int| 0 <= i < a.len() && a[i] == f;
    assert((a + b)[i] == f);
}

proof fn lemma_in_right(a: Seq<FindingModel>, b: Seq<FindingModel>, f: FindingModel)
    requires
        b.contains(f),
    ensures
        (a + b).contains(f),
{
    let i = choose|i: int| 0 <= i < b.len() && b[i] == f;
    assert((a + b)[a.len() + i] == f);
}

/// Every finding about a named schema (a member of `properties`, `$defs` or
/// `definitions`) is a finding about the list of them.
proof fn lemma_entry_kept(tool: Seq<char>, base: Seq<char>, es: Seq<(Seq<char>, Json)>, j: int, f: FindingModel)
    requires
        0 <= j < es.len(),
        node_findings(tool, base + escape_pointer(es[j].0), es[j].1).contains(f),
    ensures
        entry_findings(tool, base, es).contains(f),
    decreases es.len(),
{
    reveal(node_findings);
    let t = es.drop_last();
    if j == es.len() - 1 {
        lemma_in_right(entry_findings(tool, base, t), node_findings(tool, base + escape_pointer(es.last().0), es.last().1), f);
    } else {
        assert(t[j] == es[j]);
        lemma_entry_kept(tool, base, t, j, f);
        lemma_in_left(entry_findings(tool, base, t), node_findings(tool, base + escape_pointer(es.last().0), es.last().1), f);
    }
}

/// Every finding about a listed schema (an `anyOf`, `oneOf` or `allOf`
/// branch) is a finding about the list of them.
proof fn lemma_list_kept(tool: Seq<char>, base: Seq<char>, items: Seq<Json>, j: int, f: FindingModel)
    requires
        0 <= j < items.len(),
        node_findings(tool, base + decimal(j as nat), items[j]).contains(f),
    ensures
        list_findings(tool, base, items).contains(f),
    decreases items.len(),
{
    reveal(node_findings);
    let t = items.drop_last();
    if j == items.len() - 1 {
        lemma_in_right(list_findings(tool, base, t), node_findings(tool, base + decimal(j as nat), items.last()), f);
    } else {
        assert(t[j] == items[j]);
        lemma_list_kept(tool, base, t, j, f);
        lemma_in_left(
            list_findings(tool, base, t),
            node_findings(tool, base + decimal((items.len() - 1) as nat), items.last()),
            f,
        );
    }
}

/// The findings of an object schema include those of every schema named
/// under `properties`, `$defs` or `definitions`, each at its JSON-pointer
/// path below the object's.
pub proof fn lemma_named_subschema_findings_kept(
    tool: Seq<char>,
    path: Seq<char>,
    schema: Json,
    kw: Seq<char>,
    es: Seq<(Seq<char>, Json)>,
    j: int,
    f: FindingModel,
)
    requires
        schema is Object,
        kw == "properties"@ || kw == "$defs"@ || kw == "definitions"@,
        json_get(schema, kw) == Some(Json::Object(es)),
        0 <= j < es.len(),
        node_findings(tool, path + "/"@ + kw + "/"@ + escape_pointer(es[j].0), es[j].1).contains(f),
    ensures
        node_findings(tool, path, schema).contains(f),
{
    reveal(node_findings);
    let base = path + "/"@ + kw + "/"@;
    lemma_entry_kept(tool, base, es, j, f);
    let nf = named_findings(tool, path, schema, kw);
    assert(nf.contains(f));
    let root = if ends_with(path, "/inputSchema"@) {
        root_object_findings(
            "input_schema_root_not_object"@,
            tool,
            path,
            schema,
            "Tool inputSchema root is not object-shaped."@,
            INPUT_SCHEMA_HINT@,
        )
    } else {
        Seq::empty()
    };
    let arr = if is_array_schema(schema) { array_items_findings(tool, path, schema) } else { Seq::empty() };
    let items = if is_array_schema(schema) { child_findings(tool, path, schema, "items"@) } else { Seq::empty() };
    let s3 = root + arr + branch_findings(tool, path, schema, "anyOf"@) + branch_findings(tool, path, schema, "oneOf"@)
        + branch_findings(tool, path, schema, "allOf"@);
    let s5 = s3 + named_findings(tool, path, schema, "properties"@);
    let s7 = s5 + items + named_findings(tool, path, schema, "$defs"@);
    let s8 = s7 + named_findings(tool, path, schema, "definitions"@);
    let all = s8 + child_findings(tool, path, schema, "additionalProperties"@);
    assert(object_findings(tool, path, schema) == all);
    if kw == "properties"@ {
        lemma_in_right(s3, nf, f);
        lemma_in_left(s5, items, f);
        lemma_in_left(s5 + items, named_findings(tool, path, schema, "$defs"@), f);
        lemma_in_left(s7, named_findings(tool, path, schema, "definitions"@), f);
    } else if kw == "$defs"@ {
        lemma_in_right(s5 + items, nf, f);
        lemma_in_left(s7, named_findings(tool, path, schema, "definitions"@), f);
    } else {
        lemma_in_right(s7, nf, f);
    }
    lemma_in_left(s8, child_findings(tool, path, schema, "additionalProperties"@), f);
}

/// The findings of an object schema include those of every `anyOf`,
/// `oneOf` and `allOf` branch, each at its JSON-pointer path below the
/// object's.
pub proof fn lemma_branch_subschema_findings_kept(
    tool: Seq<char>,
    path: Seq<char>,
    schema: Json,
    kw: Seq<char>,
    items: Seq<Json>,
    j: int,
    f: FindingModel,
)
    requires
        schema is Object,
        kw == "anyOf"@ || kw == "oneOf"@ || kw == "allOf"@,
        json_get(schema, kw) == Some(Json::Array(items)),
        0 <= j < items.len(),
        node_findings(tool, path + "/"@ + kw + "/"@ + decimal(j as nat), items[j]).contains(f),
    ensures
        node_findings(tool, path, schema).contains(f),
{
    reveal(node_findings);
    let base = path + "/"@ + kw + "/"@;
    lemma_list_kept(tool, base, items, j, f);
    let bf = branch_findings(tool, path, schema, kw);
    assert(bf.contains(f));
    let root = if ends_with(path, "/inputSchema"@) {
        root_object_findings(
            "input_schema_root_not_object"@,
            tool,
            path,
            schema,
            "Tool inputSchema root is not object-shaped."@,
            INPUT_SCHEMA_HINT@,
        )
    } else {
        Seq::empty()
    };
    let arr = if is_array_schema(schema) { array_items_findings(tool, path, schema) } else { Seq::empty() };
    let items_f = if is_array_schema(schema) { child_findings(tool, path, schema, "items"@) } else { Seq::empty() };
    let s0 = root + arr;
    let s1 = s0 + branch_findings(tool, path, schema, "anyOf"@);
    let s2 = s1 + branch_findings(tool, path, schema, "oneOf"@);
    let s3 = s2 + branch_findings(tool, path, schema, "allOf"@);
    let s5 = s3 + named_findings(tool, path, schema, "properties"@);
    let s6 = s5 + items_f;
    let s7 = s6 + named_findings(tool, path, schema, "$defs"@);
    let s8 = s7 + named_findings(tool, path, schema, "definitions"@);
    let all = s8 + child_findings(tool, path, schema, "additionalProperties"@);
    assert(object_findings(tool, path, schema) == all);
    if kw == "anyOf"@ {
        lemma_in_right(s0, bf, f);
        lemma_in_left(s1, branch_findings(tool, path, schema, "oneOf"@), f);
        lemma_in_left(s2, branch_findings(tool, path, schema, "allOf"@), f);
    } else if kw == "oneOf"@ {
        lemma_in_right(s1, bf, f);
        lemma_in_left(s2, branch_findings(tool, path, schema, "allOf"@), f);
    } else {
        lemma_in_right(s2, bf, f);
    }
    lemma_in_left(s3, named_findings(tool, path, schema, "properties"@), f);
    lemma_in_left(s5, items_f, f);
    lemma_in_left(s6, named_findings(tool, path, schema, "$defs"@), f);
    lemma_in_left(s7, named_findings(tool, path, schema, "definitions"@), f);
    lemma_in_left(s8, child_findings(tool, path, schema, "additionalProperties"@), f);
}

/// A boolean schema node is reported as an error with code
/// `boolean_schema` at its own path.
pub proof fn lemma_boolean_schema_reported(tool: Seq<char>, path: Seq<char>, b: bool)
    ensures
        exists|k: int|
            0 <= k < node_findings(tool, path, Json::Bool(b)).len() && {
                let f = #[trigger] node_findings(tool, path, Json::Bool(b))[k];
                &&& f.code == "boolean_schema"@
                &&& f.severity == ToolSchemaCompatibilitySeverity::Error
                &&& f.schema_path == path
                &&& f.tool_name == tool
            },
{
    reveal(node_findings);
    assert(node_findings(tool, path, Json::Bool(b))[0].code == "boolean_schema"@);
}

/// Every finding about one advertised tool appears in the audit of the
/// listing, whatever the profile.
pub proof fn lemma_tool_findings_kept(
    response: Json,
    tools: Seq<Json>,
    profile: ToolDescriptorProfile,
    i: int,
    f: FindingModel,
)
    requires
        json_get(response, "tools"@) == Some(Json::Array(tools)),
        0 <= i < tools.len(),
        one_tool_findings(profile, i, tools[i]).contains(f),
    ensures
        audit_findings(response, profile).contains(f),
{
    lemma_tools_kept(profile, tools, i, f);
    let tf = tools_findings(profile, tools);
    let all = audit_findings(response, profile);
    let k = choose|k: int| 0 <= k < tf.len() && tf[k] == f;
    assert(all.subrange(0, tf.len() as int) == tf);
    assert(all[k] == f);
}

proof fn lemma_tools_kept(profile: ToolDescriptorProfile, tools: Seq<Json>, i: int, f: FindingModel)
    requires
        0 <= i < tools.len(),
        one_tool_findings(profile, i, tools[i]).contains(f),
    ensures
        tools_findings(profile, tools).contains(f),
    decreases tools.len(),
{
    let t = tools.drop_last();
    if i == tools.len() - 1 {
        lemma_in_right(tools_findings(profile, t), one_tool_findings(profile, i, tools.last()), f);
    } else {
        assert(t[i] == tools[i]);
        lemma_tools_kept(profile, t, i, f);
        lemma_in_left(
            tools_findings(profile, t),
            one_tool_findings(profile, tools.len() - 1, tools.last()),
            f,
        );
    }
}

/// A boolean schema under an object input schema's `properties` is
/// reported: the audit holds an error with code `boolean_schema` at
/// `/tools/<i>/inputSchema/properties/<name>`.
pub proof fn lemma_boolean_property_reported(
    response: Json,
    tools: Seq<Json>,
    profile: ToolDescriptorProfile,
    i: int,
    input: Json,
    es: Seq<(Seq<char>, Json)>,
    j: int,
    b: bool,
)
    requires
        json_get(response, "tools"@) == Some(Json::Array(tools)),
        0 <= i < tools.len(),
        json_get(tools[i], "inputSchema"@) == Some(input),
        input is Object,
        json_get(input, "properties"@) == Some(Json::Object(es)),
        0 <= j < es.len(),
        es[j].1 == Json::Bool(b),
    ensures
        exists|f: FindingModel|
            #[trigger] audit_findings(response, profile).contains(f) && f.code == "boolean_schema"@ && f.severity
                == ToolSchemaCompatibilitySeverity::Error && f.schema_path == "/tools/"@ + decimal(i as nat)
                + "/inputSchema/properties/"@ + escape_pointer(es[j].0),
{
    reveal(node_findings);
    let name = tool_display_name(tools[i]);
    let path = tool_path(i, "inputSchema"@);
    let child_path = path + "/"@ + "properties"@ + "/"@ + escape_pointer(es[j].0);
    lemma_boolean_schema_reported(name, child_path, b);
    let nf = node_findings(name, child_path, Json::Bool(b));
    let k = choose|k: int|
        0 <= k < nf.len() && {
            let f = #[trigger] nf[k];
            &&& f.code == "boolean_schema"@
            &&& f.severity == ToolSchemaCompatibilitySeverity::Error
            &&& f.schema_path == child_path
            &&& f.tool_name == name
        };
    let f = nf[k];
    assert(nf.contains(f));
    lemma_named_subschema_findings_kept(name, path, input, "properties"@, es, j, f);
    let input_f = node_findings(name, path, input);
    let rest = if profile is ChatgptTool || profile is AppsSdkUi {
        descriptor_findings(name, i, tools[i], profile)
    } else {
        Seq::empty()
    };
    lemma_in_left(input_f, rest, f);
    assert(one_tool_findings(profile, i, tools[i]) == input_f + rest);
    lemma_tool_findings_kept(response, tools, profile, i, f);
    reveal_strlit("/");
    reveal_strlit("inputSchema");
    reveal_strlit("properties");
    reveal_strlit("/tools/");
    reveal_strlit("/inputSchema/properties/");
    assert(child_path =~= "/tools/"@ + decimal(i as nat) + "/inputSchema/properties/"@ + escape_pointer(es[j].0));
}

/// Every finding about a tool's `_meta.securitySchemes` appears in the
/// audit under the chatgpt_tool and apps_sdk_ui profiles.
proof fn lemma_security_findings_kept(
    response: Json,
    tools: Seq<Json>,
    profile: ToolDescriptorProfile,
    i: int,
    meta: Json,
    f: FindingModel,
)
    requires
        profile == ToolDescriptorProfile::ChatgptTool || profile == ToolDescriptorProfile::AppsSdkUi,
        json_get(response, "tools"@) == Some(Json::Array(tools)),
        0 <= i < tools.len(),
        json_get(tools[i], "_meta"@) == Some(meta),
        meta is Object,
        security_scheme_findings(tool_display_name(tools[i]), tool_path(i, "_meta"@), meta).contains(f),
    ensures
        audit_findings(response, profile).contains(f),
{
    let name = tool_display_name(tools[i]);
    let mpath = tool_path(i, "_meta"@);
    let sf = security_scheme_findings(name, mpath, meta);
    let mf = meta_findings(name, i, tools[i], profile);
    let ui = has_ui_template(meta);
    let rest = invocation_key_findings(name, mpath, meta, "openai/toolInvocation/invoking"@)
        + invocation_key_findings(name, mpath, meta, "openai/toolInvocation/invoked"@) + if profile
        == ToolDescriptorProfile::ChatgptTool {
        tool_only_ui_findings(name, mpath, meta, ui)
    } else if profile == ToolDescriptorProfile::AppsSdkUi && ui {
        apps_ui_findings(name, mpath, meta)
    } else {
        Seq::empty()
    };
    assert(mf =~= sf + rest);
    lemma_in_left(sf, rest, f);
    let head = output_schema_findings(name, i, tools[i]) + annotation_findings(name, i, tools[i]);
    lemma_in_right(head, mf, f);
    assert(descriptor_findings(name, i, tools[i], profile) == head + mf);
    let input = match json_get(tools[i], "inputSchema"@) {
        Some(schema) => node_findings(name, tool_path(i, "inputSchema"@), schema),
        None => seq![
            error_finding(
                "input_schema_missing"@,
                name,
                tool_path(i, "inputSchema"@),
                "Tool descriptor is missing inputSchema."@,
                INPUT_SCHEMA_HINT@,
                Some(tools[i]),
            ),
        ],
    };
    lemma_in_right(input, descriptor_findings(name, i, tools[i], profile), f);
    assert(one_tool_findings(profile, i, tools[i]) == input + descriptor_findings(name, i, tools[i], profile));
    lemma_tool_findings_kept(response, tools, profile, i, f);
}

/// Under the chatgpt_tool and apps_sdk_ui profiles, a tool whose `_meta`
/// is an object without a usable `securitySchemes` is reported with an
/// error at `/tools/<i>/_meta/securitySchemes`: `security_schemes_missing`
/// when the member is absent, `security_schemes_empty` when it is an empty
/// array, and `security_schemes_not_array` when it is not an array.
pub proof fn lemma_security_schemes_checked(
    response: Json,
    tools: Seq<Json>,
    profile: ToolDescriptorProfile,
    i: int,
    meta: Json,
)
    requires
        profile == ToolDescriptorProfile::ChatgptTool || profile == ToolDescriptorProfile::AppsSdkUi,
        json_get(response, "tools"@) == Some(Json::Array(tools)),
        0 <= i < tools.len(),
        json_get(tools[i], "_meta"@) == Some(meta),
        meta is Object,
    ensures
        json_get(meta, "securitySchemes"@) is None ==> exists|f: FindingModel|
            #[trigger] audit_findings(response, profile).contains(f) && f.code == "security_schemes_missing"@
                && f.severity == ToolSchemaCompatibilitySeverity::Error && f.schema_path == "/tools/"@ + decimal(
                i as nat,
            ) + "/_meta/securitySchemes"@,
        json_get(meta, "securitySchemes"@) == Some(Json::Array(Seq::empty())) ==> exists|f: FindingModel|
            #[trigger] audit_findings(response, profile).contains(f) && f.code == "security_schemes_empty"@
                && f.severity == ToolSchemaCompatibilitySeverity::Error && f.schema_path == "/tools/"@ + decimal(
                i as nat,
            ) + "/_meta/securitySchemes"@,
        (json_get(meta, "securitySchemes"@) matches Some(v) && !(v is Array)) ==> exists|f: FindingModel|
            #[trigger] audit_findings(response, profile).contains(f) && f.code == "security_schemes_not_array"@
                && f.severity == ToolSchemaCompatibilitySeverity::Error && f.schema_path == "/tools/"@ + decimal(
                i as nat,
            ) + "/_meta/securitySchemes"@,
{
    reveal(security_scheme_findings);
    let name = tool_display_name(tools[i]);
    let mpath = tool_path(i, "_meta"@);
    let sf = security_scheme_findings(name, mpath, meta);
    reveal_strlit("/");
    reveal_strlit("_meta");
    reveal_strlit("/tools/");
    reveal_strlit("/securitySchemes");
    reveal_strlit("/_meta/securitySchemes");
    assert(mpath + "/securitySchemes"@ =~= "/tools/"@ + decimal(i as nat) + "/_meta/securitySchemes"@);
    match json_get(meta, "securitySchemes"@) {
        Some(Json::Array(v)) => {
            if v.len() == 0 {
                let f = sf[0];
                assert(sf.contains(f));
                lemma_security_findings_kept(response, tools, profile, i, meta, f);
            }
        },
        _ => {
            let f = sf[0];
            assert(sf.contains(f));
            lemma_security_findings_kept(response, tools, profile, i, meta, f);
        },
    }
}

/// Under the chatgpt_tool and apps_sdk_ui profiles, a tool whose `_meta`
/// is an object without `securitySchemes` is reported: the audit holds an
/// error with code `security_schemes_missing` at
/// `/tools/<i>/_meta/securitySchemes`.
pub proof fn lemma_missing_security_schemes_reported(
    response: Json,
    tools: Seq<Json>,
    profile: ToolDescriptorProfile,
    i: int,
    meta: Json,
)
    requires
        profile == ToolDescriptorProfile::ChatgptTool || profile == ToolDescriptorProfile::AppsSdkUi,
        json_get(response, "tools"@) == Some(Json::Array(tools)),
        0 <= i < tools.len(),
        json_get(tools[i], "_meta"@) == Some(meta),
        meta is Object,
        json_get(meta, "securitySchemes"@) is None,
    ensures
        exists|f: FindingModel|
            #[trigger] audit_findings(response, profile).contains(f) && f.code == "security_schemes_missing"@
                && f.severity == ToolSchemaCompatibilitySeverity::Error && f.schema_path == "/tools/"@ + decimal(
                i as nat,
            ) + "/_meta/securitySchemes"@,
{
    lemma_security_schemes_checked(response, tools, profile, i, meta);
}

} // verus!
