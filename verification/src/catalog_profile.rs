//! Catalog profile conformance checks for host-oriented MCP discovery.

use vstd::prelude::*;
use crate::report::{
    catalog_profile_name, CatalogMethodSummary, CatalogProfile, CatalogProfileRequirement,
    CatalogProfileVerdict, ProbeStepStatus,
};
use crate::schema_compat::{descriptor_profile_name, ToolDescriptorProfile};
use crate::text::{decimal, fmt_usize, opt_str_eq, opt_view, str_eq, strings_view, clone_opt_string};

verus! {

/// Name of the probe step that carries the catalog profile verdict.
pub const CATALOG_PROFILE_STEP: &'static str = "catalog.profile";

/// The descriptor profile that a catalog profile audits tools with.
pub open spec fn descriptor_profile_of(profile: CatalogProfile) -> ToolDescriptorProfile {
    match profile {
        CatalogProfile::ChatgptTool => ToolDescriptorProfile::ChatgptTool,
        CatalogProfile::AppsSdkUi => ToolDescriptorProfile::AppsSdkUi,
        _ => ToolDescriptorProfile::Basic,
    }
}

/// The descriptor profile that a catalog profile audits tools with.
pub fn descriptor_profile_for_catalog_profile(profile: CatalogProfile) -> (r: ToolDescriptorProfile)
    ensures
        r == descriptor_profile_of(profile),
{
    match profile {
        CatalogProfile::ChatgptTool => ToolDescriptorProfile::ChatgptTool,
        CatalogProfile::AppsSdkUi => ToolDescriptorProfile::AppsSdkUi,
        CatalogProfile::RawMcp
        | CatalogProfile::CodexDeferred
        | CatalogProfile::ClaudeCode
        | CatalogProfile::GeminiCli => ToolDescriptorProfile::Basic,
    }
}

/// A profile requirement as plain values.
pub struct RequirementModel {
    pub name: Seq<char>,
    pub required: bool,
    pub status: ProbeStepStatus,
    pub detail: Option<Seq<char>>,
    pub item_count: Option<usize>,
}

/// The plain values of a requirement.
pub open spec fn requirement_view(r: CatalogProfileRequirement) -> RequirementModel {
    RequirementModel {
        name: r.name@,
        required: r.required,
        status: r.status,
        detail: opt_view(r.detail),
        item_count: r.item_count,
    }
}

/// The plain values of each requirement.
pub open spec fn requirements_view(s: Seq<CatalogProfileRequirement>) -> Seq<RequirementModel> {
    s.map_values(|r: CatalogProfileRequirement| requirement_view(r))
}

/// The first summary at or after `i` whose method is `m`.
pub open spec fn find_method_from(methods: Seq<CatalogMethodSummary>, m: Seq<char>, i: int) -> Option<
    int,
>
    decreases methods.len() - i,
{
    if i < 0 || i >= methods.len() {
        None
    } else if methods[i].method@ == m {
        Some(i)
    } else {
        find_method_from(methods, m, i + 1)
    }
}

/// The first summary whose method is `m`.
pub open spec fn find_method(methods: Seq<CatalogMethodSummary>, m: Seq<char>) -> Option<int> {
    find_method_from(methods, m, 0)
}

/// The requirement and the finding (if any) that one discovery method gives.
pub open spec fn method_requirement(
    methods: Seq<CatalogMethodSummary>,
    m: Seq<char>,
    required: bool,
    require_non_empty: bool,
) -> (RequirementModel, Option<Seq<char>>) {
    match find_method(methods, m) {
        None => (
            RequirementModel {
                name: m,
                required,
                status: if required {
                    ProbeStepStatus::Error
                } else {
                    ProbeStepStatus::Passed
                },
                detail: Some("method was not captured"@),
                item_count: None,
            },
            if required {
                Some(m + ": "@ + "method was not captured"@)
            } else {
                None
            },
        ),
        Some(i) => {
            let s = methods[i];
            let unsupported = opt_view(s.detail) == Some("not supported"@);
            let count = match s.item_count {
                Some(c) => c,
                None => 0,
            };
            let (status, detail) = if required && unsupported {
                (
                    ProbeStepStatus::Error,
                    Some("method is required by this profile but is not supported"@),
                )
            } else if require_non_empty && s.status == ProbeStepStatus::Passed && count == 0 {
                (ProbeStepStatus::Error, Some("method returned no discoverable items"@))
            } else {
                (s.status, opt_view(s.detail))
            };
            let reason = match detail {
                Some(d) => d,
                None => "method did not satisfy profile requirement"@,
            };
            (
                RequirementModel {
                    name: m,
                    required,
                    status,
                    detail,
                    item_count: s.item_count,
                },
                if required && status == ProbeStepStatus::Error {
                    Some(m + ": "@ + reason)
                } else {
                    None
                },
            )
        },
    }
}

/// The requirement and finding for the `tools/list` pagination receipt.
pub open spec fn pagination_requirement(methods: Seq<CatalogMethodSummary>) -> (
    RequirementModel,
    Option<Seq<char>>,
) {
    match find_method(methods, "tools/list"@) {
        None => (
            RequirementModel {
                name: "tools/list pagination drain"@,
                required: true,
                status: ProbeStepStatus::Error,
                detail: Some("tools/list was not captured"@),
                item_count: None,
            },
            Some("tools/list pagination drain: tools/list was not captured"@),
        ),
        Some(i) => {
            let s = methods[i];
            let ok = s.status == ProbeStepStatus::Passed && s.page_count is Some;
            (
                RequirementModel {
                    name: "tools/list pagination drain"@,
                    required: true,
                    status: if ok {
                        ProbeStepStatus::Passed
                    } else {
                        ProbeStepStatus::Error
                    },
                    detail: if ok {
                        Some(
                            "drained "@ + decimal(s.page_count->0 as nat) + " tools/list page(s)"@,
                        )
                    } else {
                        Some("tools/list pagination drain did not complete"@)
                    },
                    item_count: s.item_count,
                },
                if ok {
                    None
                } else {
                    Some(
                        "tools/list pagination drain: tools/list pagination drain did not complete"@,
                    )
                },
            )
        },
    }
}

/// A finding, if present, as a sequence of zero or one items.
pub open spec fn opt_seq(f: Option<Seq<char>>) -> Seq<Seq<char>> {
    match f {
        Some(x) => seq![x],
        None => Seq::empty(),
    }
}

/// The requirement that names the descriptor profile in use.
pub open spec fn descriptor_requirement(profile: CatalogProfile) -> RequirementModel {
    RequirementModel {
        name: "descriptor_profile"@,
        required: true,
        status: ProbeStepStatus::Passed,
        detail: Some(
            "uses descriptor_profile="@ + descriptor_profile_name(descriptor_profile_of(profile)),
        ),
        item_count: None,
    }
}

/// The ordered checks a profile makes: each requirement with its finding.
pub open spec fn profile_checks(profile: CatalogProfile, methods: Seq<CatalogMethodSummary>) -> Seq<
    (RequirementModel, Option<Seq<char>>),
> {
    let tools = method_requirement(
        methods,
        "tools/list"@,
        true,
        profile != CatalogProfile::RawMcp,
    );
    let apps = profile == CatalogProfile::AppsSdkUi;
    let templates = method_requirement(methods, "resources/templates/list"@, apps, apps);
    let resources = method_requirement(methods, "resources/list"@, false, false);
    let prompts = method_requirement(methods, "prompts/list"@, false, false);
    let head = seq![(descriptor_requirement(profile), None), tools];
    let mid = if profile == CatalogProfile::CodexDeferred {
        head.push(pagination_requirement(methods))
    } else {
        head
    };
    mid.push(templates).push(resources).push(prompts)
}

/// The findings of a list of checks, in order.
pub open spec fn checks_findings(c: Seq<(RequirementModel, Option<Seq<char>>)>) -> Seq<Seq<char>>
    decreases c.len(),
{
    if c.len() == 0 {
        Seq::empty()
    } else {
        checks_findings(c.drop_last()) + opt_seq(c.last().1)
    }
}

/// The verdict's detail line for a profile and its findings.
pub open spec fn profile_detail(profile: CatalogProfile, findings: Seq<Seq<char>>) -> Seq<char> {
    if findings.len() == 0 {
        "catalog profile "@ + catalog_profile_name(profile) + " passed"@
    } else {
        "catalog profile "@ + catalog_profile_name(profile) + " failed with "@ + decimal(
            findings.len(),
        ) + " finding(s)"@
    }
}

fn requirement_from(m: &RequirementModelExec) -> (r: CatalogProfileRequirement)
    ensures
        requirement_view(r) == m.model(),
{
    CatalogProfileRequirement {
        name: m.name.clone(),
        required: m.required,
        status: m.status,
        detail: clone_opt_string(&m.detail),
        item_count: m.item_count,
    }
}

/// Exec form of a requirement under construction.
struct RequirementModelExec {
    name: String,
    required: bool,
    status: ProbeStepStatus,
    detail: Option<String>,
    item_count: Option<usize>,
}

impl RequirementModelExec {
    spec fn model(&self) -> RequirementModel {
        RequirementModel {
            name: self.name@,
            required: self.required,
            status: self.status,
            detail: opt_view(self.detail),
            item_count: self.item_count,
        }
    }
}

fn find_method_exec(methods: &[CatalogMethodSummary], m: &str) -> (r: Option<usize>)
    ensures
        match r {
            Some(i) => i < methods@.len() && find_method(methods@, m@) == Some(i as int),
            None => find_method(methods@, m@) is None,
        },
{
    let mut i: usize = 0;
    while i < methods.len()
        invariant
            i <= methods@.len(),
            find_method(methods@, m@) == find_method_from(methods@, m@, i as int),
        decreases methods@.len() - i,
    {
        if str_eq(methods[i].method.as_str(), m) {
            return Some(i);
        }
        i = i + 1;
    }
    None
}

fn push_check(
    requirements: &mut Vec<CatalogProfileRequirement>,
    findings: &mut Vec<String>,
    req: CatalogProfileRequirement,
    finding: Option<String>,
)
    ensures
        requirements_view(final(requirements)@) == requirements_view(old(requirements)@).push(
            requirement_view(req),
        ),
        strings_view(final(findings)@) == strings_view(old(findings)@) + opt_seq(
            opt_view(finding),
        ),
{
    let ghost old_req = requirements@;
    let ghost old_find = findings@;
    requirements.push(req);
    proof {
        assert(requirements_view(requirements@) =~= requirements_view(old_req).push(
            requirement_view(req),
        ));
    }
    match finding {
        Some(f) => {
            findings.push(f);
            proof {
                assert(strings_view(findings@) =~= strings_view(old_find) + seq![f@]);
            }
        },
        None => {
            assert(strings_view(old_find) + Seq::<Seq<char>>::empty() =~= strings_view(old_find));
        },
    }
}

fn method_check(
    methods: &[CatalogMethodSummary],
    method: &str,
    required: bool,
    require_non_empty: bool,
) -> (r: (CatalogProfileRequirement, Option<String>))
    ensures
        (requirement_view(r.0), opt_view(r.1)) == method_requirement(
            methods@,
            method@,
            required,
            require_non_empty,
        ),
{
    match find_method_exec(methods, method) {
        None => {
            let req = CatalogProfileRequirement {
                name: String::from_str(method),
                required,
                status: if required {
                    ProbeStepStatus::Error
                } else {
                    ProbeStepStatus::Passed
                },
                detail: Some(String::from_str("method was not captured")),
                item_count: None,
            };
            let finding = if required {
                let mut f = String::from_str(method);
                f.append(": ");
                f.append("method was not captured");
                Some(f)
            } else {
                None
            };
            (req, finding)
        },
        Some(i) => {
            let summary = &methods[i];
            let unsupported = opt_str_eq(&summary.detail, "not supported");
            let count: usize = match summary.item_count {
                Some(c) => c,
                None => 0,
            };
            let mut status = summary.status;
            let mut detail = clone_opt_string(&summary.detail);
            if required && unsupported {
                status = ProbeStepStatus::Error;
                detail = Some(
                    String::from_str("method is required by this profile but is not supported"),
                );
            } else if require_non_empty && status == ProbeStepStatus::Passed && count == 0 {
                status = ProbeStepStatus::Error;
                detail = Some(String::from_str("method returned no discoverable items"));
            }
            let finding = if required && status == ProbeStepStatus::Error {
                let mut f = String::from_str(method);
                f.append(": ");
                match &detail {
                    Some(d) => f.append(d.as_str()),
                    None => f.append("method did not satisfy profile requirement"),
                }
                Some(f)
            } else {
                None
            };
            let req = CatalogProfileRequirement {
                name: String::from_str(method),
                required,
                status,
                detail,
                item_count: summary.item_count,
            };
            (req, finding)
        },
    }
}

fn pagination_check(methods: &[CatalogMethodSummary]) -> (r: (
    CatalogProfileRequirement,
    Option<String>,
))
    ensures
        (requirement_view(r.0), opt_view(r.1)) == pagination_requirement(methods@),
{
    match find_method_exec(methods, "tools/list") {
        None => {
            let req = CatalogProfileRequirement {
                name: String::from_str("tools/list pagination drain"),
                required: true,
                status: ProbeStepStatus::Error,
                detail: Some(String::from_str("tools/list was not captured")),
                item_count: None,
            };
            (
                req,
                Some(
                    String::from_str("tools/list pagination drain: tools/list was not captured"),
                ),
            )
        },
        Some(i) => {
            let summary = &methods[i];
            let ok = summary.status == ProbeStepStatus::Passed && summary.page_count.is_some();
            let detail = if ok {
                let mut d = String::from_str("drained ");
                let n = match summary.page_count {
                    Some(p) => p,
                    None => 0,
                };
                d.append(fmt_usize(n).as_str());
                d.append(" tools/list page(s)");
                d
            } else {
                String::from_str("tools/list pagination drain did not complete")
            };
            let finding = if ok {
                None
            } else {
                Some(
                    String::from_str(
                        "tools/list pagination drain: tools/list pagination drain did not complete",
                    ),
                )
            };
            let req = CatalogProfileRequirement {
                name: String::from_str("tools/list pagination drain"),
                required: true,
                status: if ok {
                    ProbeStepStatus::Passed
                } else {
                    ProbeStepStatus::Error
                },
                detail: Some(detail),
                item_count: summary.item_count,
            };
            (req, finding)
        },
    }
}

/// Evaluate a host profile against the captured catalog discovery methods.
pub fn evaluate_catalog_profile(profile: CatalogProfile, methods: &[CatalogMethodSummary]) -> (r:
    CatalogProfileVerdict)
    ensures
        r.profile == profile,
        requirements_view(r.requirements@) == profile_checks(profile, methods@).map_values(
            |c: (RequirementModel, Option<Seq<char>>)| c.0,
        ),
        strings_view(r.findings@) == checks_findings(profile_checks(profile, methods@)),
        r.status == (if r.findings@.len() == 0 {
            ProbeStepStatus::Passed
        } else {
            ProbeStepStatus::Error
        }),
        r.detail@ == profile_detail(profile, strings_view(r.findings@)),
{
    let ghost checks = profile_checks(profile, methods@);
    let mut requirements: Vec<CatalogProfileRequirement> = Vec::new();
    let mut findings: Vec<String> = Vec::new();
    let descriptor_profile = descriptor_profile_for_catalog_profile(profile);
    let mut d = String::from_str("uses descriptor_profile=");
    d.append(descriptor_profile.as_str());
    let first = CatalogProfileRequirement {
        name: String::from_str("descriptor_profile"),
        required: true,
        status: ProbeStepStatus::Passed,
        detail: Some(d),
        item_count: None,
    };
    push_check(&mut requirements, &mut findings, first, None);
    let (req, f) = method_check(methods, "tools/list", true, profile != CatalogProfile::RawMcp);
    push_check(&mut requirements, &mut findings, req, f);
    let ghost head = seq![
        (descriptor_requirement(profile), None::<Seq<char>>),
        method_requirement(methods@, "tools/list"@, true, profile != CatalogProfile::RawMcp),
    ];
    proof {
        assert(requirements_view(requirements@) =~= head.map_values(
            |c: (RequirementModel, Option<Seq<char>>)| c.0,
        ));
        assert(head.drop_last() =~= seq![(descriptor_requirement(profile), None::<Seq<char>>)]);
        assert(head.drop_last().drop_last() =~= Seq::<(RequirementModel, Option<Seq<char>>)>::empty());
        reveal_with_fuel(checks_findings, 3);
        assert(opt_seq(None) =~= Seq::<Seq<char>>::empty());
        assert(strings_view(findings@) =~= checks_findings(head));
    }
    let ghost mut acc = head;
    if profile == CatalogProfile::CodexDeferred {
        let (req, f) = pagination_check(methods);
        push_check(&mut requirements, &mut findings, req, f);
        proof {
            let old_acc = acc;
            acc = acc.push(pagination_requirement(methods@));
            assert(acc.drop_last() =~= old_acc);
        assert(strings_view(findings@) =~= checks_findings(acc));
            assert(strings_view(findings@) =~= checks_findings(acc));
            assert(requirements_view(requirements@) =~= acc.map_values(
                |c: (RequirementModel, Option<Seq<char>>)| c.0,
            ));
        }
    }
    let apps = profile == CatalogProfile::AppsSdkUi;
    let (req, f) = method_check(methods, "resources/templates/list", apps, apps);
    push_check(&mut requirements, &mut findings, req, f);
    proof {
        let old_acc = acc;
        acc = acc.push(method_requirement(methods@, "resources/templates/list"@, apps, apps));
        assert(acc.drop_last() =~= old_acc);
        assert(strings_view(findings@) =~= checks_findings(acc));
        assert(requirements_view(requirements@) =~= acc.map_values(
            |c: (RequirementModel, Option<Seq<char>>)| c.0,
        ));
    }
    let (req, f) = method_check(methods, "resources/list", false, false);
    push_check(&mut requirements, &mut findings, req, f);
    proof {
        let old_acc = acc;
        acc = acc.push(method_requirement(methods@, "resources/list"@, false, false));
        assert(acc.drop_last() =~= old_acc);
        assert(strings_view(findings@) =~= checks_findings(acc));
        assert(requirements_view(requirements@) =~= acc.map_values(
            |c: (RequirementModel, Option<Seq<char>>)| c.0,
        ));
    }
    let (req, f) = method_check(methods, "prompts/list", false, false);
    push_check(&mut requirements, &mut findings, req, f);
    proof {
        let old_acc = acc;
        acc = acc.push(method_requirement(methods@, "prompts/list"@, false, false));
        assert(acc.drop_last() =~= old_acc);
        assert(strings_view(findings@) =~= checks_findings(acc));
        assert(requirements_view(requirements@) =~= acc.map_values(
            |c: (RequirementModel, Option<Seq<char>>)| c.0,
        ));
        assert(acc =~= checks);
    }
    let status = if findings.len() == 0 {
        ProbeStepStatus::Passed
    } else {
        ProbeStepStatus::Error
    };
    let mut detail = String::from_str("catalog profile ");
    detail.append(profile.as_str());
    if findings.len() == 0 {
        detail.append(" passed");
    } else {
        detail.append(" failed with ");
        detail.append(fmt_usize(findings.len()).as_str());
        detail.append(" finding(s)");
    }
    proof {
        assert(strings_view(findings@).len() == findings@.len());
    }
    CatalogProfileVerdict { profile, status, detail, requirements, findings }
}

} // verus!

verus! {

/// A profile requirement as a JSON object with sorted keys; an absent
/// detail or item count is left out.
pub open spec fn profile_requirement_json(r: CatalogProfileRequirement) -> crate::json::Json {
    crate::json::Json::Object(
        crate::catalog_contract::opt_entry("detail"@, crate::catalog_contract::opt_str_json(r.detail))
            + crate::catalog_contract::opt_entry(
            "item_count"@,
            crate::catalog_contract::opt_num_json(r.item_count),
        ) + seq![
            ("name"@, crate::json::Json::Str(r.name@)),
            ("required"@, crate::json::Json::Bool(r.required)),
            ("status"@, crate::json::Json::Str(crate::catalog_contract::status_name(r.status))),
        ],
    )
}

/// A profile verdict as a JSON object with sorted keys; empty findings are
/// left out.
pub open spec fn profile_verdict_json(v: CatalogProfileVerdict) -> crate::json::Json {
    crate::json::Json::Object(
        seq![("detail"@, crate::json::Json::Str(v.detail@))] + (if v.findings@.len() == 0 {
            Seq::empty()
        } else {
            seq![("findings"@, crate::catalog_contract::str_array(strings_view(v.findings@)))]
        }) + seq![
            ("profile"@, crate::json::Json::Str(catalog_profile_name(v.profile))),
            (
                "requirements"@,
                crate::json::Json::Array(
                    v.requirements@.map_values(|r: CatalogProfileRequirement| profile_requirement_json(r)),
                ),
            ),
            ("status"@, crate::json::Json::Str(crate::catalog_contract::status_name(v.status))),
        ],
    )
}

fn profile_requirement_value(r: &CatalogProfileRequirement) -> (j: crate::json::JsonValue)
    ensures
        j@ == profile_requirement_json(*r),
{
    let mut e: Vec<(String, crate::json::JsonValue)> = Vec::new();
    crate::catalog_contract::push_entry(&mut e, "detail", crate::catalog_contract::opt_str_value(&r.detail));
    crate::catalog_contract::push_entry(&mut e, "item_count", crate::catalog_contract::opt_num_value(r.item_count));
    crate::catalog_contract::push_entry(&mut e, "name", Some(crate::json::JsonValue::String(r.name.clone())));
    crate::catalog_contract::push_entry(&mut e, "required", Some(crate::json::JsonValue::Bool(r.required)));
    crate::catalog_contract::push_entry(&mut e, "status", Some(crate::catalog_contract::status_value(&r.status)));
    proof {
        assert(crate::json::view_entries(e@) =~= match profile_requirement_json(*r) {
            crate::json::Json::Object(es) => es,
            _ => Seq::empty(),
        });
    }
    crate::json::JsonValue::Object(e)
}

/// A profile verdict as a JSON document.
pub fn profile_verdict_value(v: &CatalogProfileVerdict) -> (j: crate::json::JsonValue)
    ensures
        j@ == profile_verdict_json(*v),
{
    let mut items: Vec<crate::json::JsonValue> = Vec::new();
    let mut i: usize = 0;
    while i < v.requirements.len()
        invariant
            i <= v.requirements@.len(),
            crate::json::view_items(items@) == v.requirements@.subrange(0, i as int).map_values(
                |r: CatalogProfileRequirement| profile_requirement_json(r),
            ),
        decreases v.requirements@.len() - i,
    {
        let j = profile_requirement_value(&v.requirements[i]);
        let ghost before = items@;
        items.push(j);
        proof {
            assert(items@.drop_last() =~= before);
            assert(crate::json::view_items(items@) =~= v.requirements@.subrange(0, i + 1).map_values(
                |r: CatalogProfileRequirement| profile_requirement_json(r),
            ));
        }
        i = i + 1;
    }
    proof {
        assert(v.requirements@.subrange(0, i as int) =~= v.requirements@);
    }
    let mut e: Vec<(String, crate::json::JsonValue)> = Vec::new();
    crate::catalog_contract::push_entry(&mut e, "detail", Some(crate::json::JsonValue::String(v.detail.clone())));
    let findings = if v.findings.len() == 0 {
        None
    } else {
        Some(crate::catalog_contract::str_array_json(v.findings.as_slice()))
    };
    crate::catalog_contract::push_entry(&mut e, "findings", findings);
    crate::catalog_contract::push_entry(
        &mut e,
        "profile",
        Some(crate::json::JsonValue::String(String::from_str(v.profile.as_str()))),
    );
    crate::catalog_contract::push_entry(&mut e, "requirements", Some(crate::json::JsonValue::Array(items)));
    crate::catalog_contract::push_entry(&mut e, "status", Some(crate::catalog_contract::status_value(&v.status)));
    proof {
        assert(crate::json::view_entries(e@) =~= match profile_verdict_json(*v) {
            crate::json::Json::Object(es) => es,
            _ => Seq::empty(),
        });
    }
    crate::json::JsonValue::Object(e)
}

/// The probe step that carries a catalog profile verdict.
pub fn build_catalog_profile_step(verdict: &CatalogProfileVerdict) -> (r: crate::report::ProbeStep)
    ensures
        r.name@ == CATALOG_PROFILE_STEP@,
        r.status == verdict.status,
        opt_view(r.detail) == Some(verdict.detail@),
        r.data matches Some(d) && d@ == profile_verdict_json(*verdict),
{
    let status = match verdict.status {
        ProbeStepStatus::Passed => ProbeStepStatus::Passed,
        ProbeStepStatus::Error => ProbeStepStatus::Error,
    };
    crate::report::ProbeStep {
        name: String::from_str(CATALOG_PROFILE_STEP),
        status,
        detail: Some(verdict.detail.clone()),
        data: Some(profile_verdict_value(verdict)),
    }
}

proof fn lemma_find_first_from(methods: Seq<CatalogMethodSummary>, m: Seq<char>, i: int, k: int)
    requires
        0 <= k <= i < methods.len(),
        methods[i].method@ == m,
        forall|j: int| 0 <= j < i ==> (#[trigger] methods[j]).method@ != m,
    ensures
        find_method_from(methods, m, k) == Some(i),
    decreases i - k,
{
    if k < i {
        lemma_find_first_from(methods, m, i, k + 1);
    }
}

proof fn lemma_findings_hold(c: Seq<(RequirementModel, Option<Seq<char>>)>, j: int, x: Seq<char>)
    requires
        0 <= j < c.len(),
        c[j].1 == Some(x),
    ensures
        checks_findings(c).contains(x),
    decreases c.len(),
{
    let t = c.drop_last();
    if j == c.len() - 1 {
        assert(checks_findings(c) == checks_findings(t) + seq![x]);
        assert(checks_findings(c)[checks_findings(t).len() as int] == x);
    } else {
        assert(t[j] == c[j]);
        lemma_findings_hold(t, j, x);
        let k = choose|k: int| 0 <= k < checks_findings(t).len() && checks_findings(t)[k] == x;
        assert(checks_findings(c)[k] == x);
    }
}

/// Every profile but raw_mcp needs `tools/list` to list something: when
/// the first `tools/list` summary passed with no items (a count of zero or
/// none), the profile's `tools/list` requirement fails and the verdict has
/// a finding, so it fails; unless the method was reported unsupported, the
/// requirement's detail is `method returned no discoverable items` and the
/// finding is `tools/list: method returned no discoverable items`.
pub proof fn lemma_empty_tools_listing_fails(profile: CatalogProfile, methods: Seq<CatalogMethodSummary>, i: int)
    requires
        profile != CatalogProfile::RawMcp,
        0 <= i < methods.len(),
        methods[i].method@ == "tools/list"@,
        forall|j: int| 0 <= j < i ==> (#[trigger] methods[j]).method@ != "tools/list"@,
        methods[i].status == ProbeStepStatus::Passed,
        methods[i].item_count is None || methods[i].item_count == Some(0usize),
    ensures
        profile_checks(profile, methods)[1].0.name == "tools/list"@,
        profile_checks(profile, methods)[1].0.status == ProbeStepStatus::Error,
        checks_findings(profile_checks(profile, methods)).len() > 0,
        opt_view(methods[i].detail) != Some("not supported"@) ==> {
            &&& profile_checks(profile, methods)[1].0.detail == Some("method returned no discoverable items"@)
            &&& checks_findings(profile_checks(profile, methods)).contains(
                "tools/list: method returned no discoverable items"@,
            )
        },
{
    lemma_find_first_from(methods, "tools/list"@, i, 0);
    let c = profile_checks(profile, methods);
    let tools = method_requirement(methods, "tools/list"@, true, true);
    assert(c[1] == tools);
    match tools.1 {
        Some(x) => {
            lemma_findings_hold(c, 1, x);
            if opt_view(methods[i].detail) != Some("not supported"@) {
                reveal_strlit("tools/list");
                reveal_strlit(": ");
                reveal_strlit("method returned no discoverable items");
                reveal_strlit("tools/list: method returned no discoverable items");
                assert(x =~= "tools/list: method returned no discoverable items"@);
            }
        },
        None => {},
    }
}

/// A `tools/list` that listed something satisfies every profile: when the
/// first `tools/list` summary passed with at least one item and was not
/// reported unsupported, the profile's `tools/list` requirement passes
/// with the summary's own detail and adds no finding. Under raw_mcp an
/// empty listing passes too.
pub proof fn lemma_listed_tools_pass(profile: CatalogProfile, methods: Seq<CatalogMethodSummary>, i: int)
    requires
        0 <= i < methods.len(),
        methods[i].method@ == "tools/list"@,
        forall|j: int| 0 <= j < i ==> (#[trigger] methods[j]).method@ != "tools/list"@,
        methods[i].status == ProbeStepStatus::Passed,
        opt_view(methods[i].detail) != Some("not supported"@),
        profile == CatalogProfile::RawMcp || (methods[i].item_count matches Some(n) && n > 0),
    ensures
        profile_checks(profile, methods)[1].0.name == "tools/list"@,
        profile_checks(profile, methods)[1].0.status == ProbeStepStatus::Passed,
        profile_checks(profile, methods)[1].0.detail == opt_view(methods[i].detail),
        profile_checks(profile, methods)[1].1 is None,
{
    lemma_find_first_from(methods, "tools/list"@, i, 0);
}

proof fn lemma_find_none_from(methods: Seq<CatalogMethodSummary>, m: Seq<char>, k: int)
    requires
        0 <= k,
        forall|j: int| 0 <= j < methods.len() ==> (#[trigger] methods[j]).method@ != m,
    ensures
        find_method_from(methods, m, k) is None,
    decreases methods.len() - k,
{
    if k < methods.len() {
        lemma_find_none_from(methods, m, k + 1);
    }
}

/// Every profile needs `tools/list` to have been captured: with no
/// `tools/list` summary, the `tools/list` requirement fails with
/// `method was not captured` and the verdict has the finding
/// `tools/list: method was not captured`.
pub proof fn lemma_uncaptured_tools_listing_fails(profile: CatalogProfile, methods: Seq<CatalogMethodSummary>)
    requires
        forall|j: int| 0 <= j < methods.len() ==> (#[trigger] methods[j]).method@ != "tools/list"@,
    ensures
        profile_checks(profile, methods)[1].0.status == ProbeStepStatus::Error,
        profile_checks(profile, methods)[1].0.detail == Some("method was not captured"@),
        checks_findings(profile_checks(profile, methods)).contains("tools/list: method was not captured"@),
{
    lemma_find_none_from(methods, "tools/list"@, 0);
    let c = profile_checks(profile, methods);
    let x = "tools/list"@ + ": "@ + "method was not captured"@;
    assert(c[1].1 == Some(x));
    lemma_findings_hold(c, 1, x);
    reveal_strlit("tools/list");
    reveal_strlit(": ");
    reveal_strlit("method was not captured");
    reveal_strlit("tools/list: method was not captured");
    assert(x =~= "tools/list: method was not captured"@);
}

/// The apps_sdk_ui profile needs resource templates: when the first
/// `resources/templates/list` summary passed with no items and was not
/// reported unsupported, its requirement fails with `method returned no
/// discoverable items` and the verdict has the finding
/// `resources/templates/list: method returned no discoverable items`.
pub proof fn lemma_apps_profile_needs_templates(methods: Seq<CatalogMethodSummary>, i: int)
    requires
        0 <= i < methods.len(),
        methods[i].method@ == "resources/templates/list"@,
        forall|j: int| 0 <= j < i ==> (#[trigger] methods[j]).method@ != "resources/templates/list"@,
        methods[i].status == ProbeStepStatus::Passed,
        methods[i].item_count is None || methods[i].item_count == Some(0usize),
        opt_view(methods[i].detail) != Some("not supported"@),
    ensures
        profile_checks(CatalogProfile::AppsSdkUi, methods)[2].0.name == "resources/templates/list"@,
        profile_checks(CatalogProfile::AppsSdkUi, methods)[2].0.status == ProbeStepStatus::Error,
        profile_checks(CatalogProfile::AppsSdkUi, methods)[2].0.detail == Some("method returned no discoverable items"@),
        checks_findings(profile_checks(CatalogProfile::AppsSdkUi, methods)).contains(
            "resources/templates/list: method returned no discoverable items"@,
        ),
{
    lemma_find_first_from(methods, "resources/templates/list"@, i, 0);
    let c = profile_checks(CatalogProfile::AppsSdkUi, methods);
    let x = "resources/templates/list"@ + ": "@ + "method returned no discoverable items"@;
    assert(c[2].1 == Some(x));
    lemma_findings_hold(c, 2, x);
    reveal_strlit("resources/templates/list");
    reveal_strlit(": ");
    reveal_strlit("method returned no discoverable items");
    reveal_strlit("resources/templates/list: method returned no discoverable items");
    assert(x =~= "resources/templates/list: method returned no discoverable items"@);
}

} // verus!
