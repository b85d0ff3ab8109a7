//! The sequence of a probe run once connected, as a state machine: which
//! catalog listings run (tools always; resources and their templates, and
//! prompts, when the server advertises them), what each records, and the
//! verdicts of the catalog profile and catalog contract at the end. The
//! caller does the listings and the disconnect.

use vstd::prelude::*;
use crate::catalog_contract::{
    build_catalog_contract_step, contract_detail, contract_reqs_view, contract_requirements, contract_same,
    effective_descriptor_profile, effective_profile, evaluate_catalog_contract, failing, snapshot_fingerprint,
    verdict_json, CatalogContractSnapshot, CATALOG_CONTRACT_STEP,
};
use crate::catalog_profile::{
    build_catalog_profile_step, checks_findings, evaluate_catalog_profile, profile_checks, profile_detail,
    profile_verdict_json, requirements_view, CATALOG_PROFILE_STEP,
};
use crate::json::JsonValue;
use crate::probe::discovery::opt_json;
use crate::probe::errors::ErrorDetails;
use crate::probe::{availability_step, listing_matches, listing_report, snapshot_json, stdio_step, StdioSnapshot};
use crate::report::{
    CatalogContract, CatalogContractVerdict, CatalogMethodSummary, CatalogProfile, CatalogProfileVerdict,
    ProbeStep, ProbeStepStatus,
};
use crate::schema_compat::{
    audit_findings, build_tool_schema_compatibility_step_for_profile, schema_step_matches, ToolDescriptorProfile,
};
use crate::text::{opt_view, strings_view};
use crate::transport::TransportType;

verus! {

/// A catalog listing.
#[derive(Clone, Copy, PartialEq, Eq, Structural)]
pub enum ProbeListing {
    Tools,
    Resources,
    ResourceTemplates,
    Prompts,
}

/// Where a probe run stands.
#[derive(Clone, Copy, PartialEq, Eq, Structural)]
pub enum ProbeRunStage {
    /// Waiting for a listing.
    Listing(ProbeListing),
    /// Waiting for the disconnect.
    Disconnect,
    Done,
}

/// The state of a connected probe run: what the server advertised, the
/// profiles and contract it is held to, and what the listings gave.
pub struct ProbeRunState {
    pub stage: ProbeRunStage,
    pub transport: TransportType,
    pub resources_supported: bool,
    pub prompts_supported: bool,
    pub catalog_profile: Option<CatalogProfile>,
    pub descriptor_profile: ToolDescriptorProfile,
    pub catalog_contract: Option<CatalogContract>,
    pub methods: Vec<CatalogMethodSummary>,
    pub tools: Option<JsonValue>,
    pub resources: Option<JsonValue>,
    pub resource_templates: Option<JsonValue>,
    pub prompts: Option<JsonValue>,
    pub profile_verdict: Option<CatalogProfileVerdict>,
    pub contract_verdict: Option<CatalogContractVerdict>,
}

/// What came of the last action: a listing's page count, identifiers and
/// document (when it could be rendered as JSON), or its error; or the
/// disconnect's outcome with what a stdio server wrote to stderr.
pub enum ProbeEvent {
    Listed(Result<(usize, Vec<String>, Option<JsonValue>), ErrorDetails>),
    Disconnected { result: Result<(), String>, stdio: Option<StdioSnapshot> },
}

/// What the caller does next.
#[derive(PartialEq, Eq, Structural)]
pub enum ProbeAction {
    List(ProbeListing),
    Disconnect,
    Finish,
}

// ---------------------------------------------------------------------------
// The transition.
// ---------------------------------------------------------------------------

/// A listing's method, step name, noun, count key and list key.
pub open spec fn listing_names(k: ProbeListing) -> (Seq<char>, Seq<char>, Seq<char>, Seq<char>, Seq<char>) {
    match k {
        ProbeListing::Tools => ("tools/list"@, "tools.list"@, "tools"@, "tool_count"@, "tool_names"@),
        ProbeListing::Resources => ("resources/list"@, "resources.list"@, "resources"@, "resource_count"@, "resource_uris"@),
        ProbeListing::ResourceTemplates => (
            "resources/templates/list"@,
            "resources.templates.list"@,
            "resource templates"@,
            "resource_template_count"@,
            "resource_template_uris"@,
        ),
        ProbeListing::Prompts => ("prompts/list"@, "prompts.list"@, "prompts"@, "prompt_count"@, "prompt_names"@),
    }
}

/// A listing's outcome as `listing_report` reads it.
pub open spec fn listing_outcome(o: Result<(usize, Vec<String>, Option<JsonValue>), ErrorDetails>) -> Result<
    (nat, Seq<Seq<char>>),
    ErrorDetails,
> {
    match o {
        Ok((p, names, _)) => Ok((p as nat, strings_view(names@))),
        Err(e) => Err(e),
    }
}

/// The document a listing gave.
pub open spec fn listing_doc(o: Result<(usize, Vec<String>, Option<JsonValue>), ErrorDetails>) -> Option<JsonValue> {
    match o {
        Ok((_, _, d)) => d,
        Err(_) => None,
    }
}

/// The listings the server does not advertise, after listing `k`: the
/// steps and method names recorded as not supported, and the stage next.
pub open spec fn skip_after(resources: bool, prompts: bool, k: ProbeListing) -> (Seq<Seq<char>>, Seq<Seq<char>>, ProbeRunStage) {
    let r_steps = seq!["resources.list"@, "resources.templates.list"@];
    let r_methods = seq!["resources/list"@, "resources/templates/list"@];
    match k {
        ProbeListing::Tools => if resources {
            (Seq::empty(), Seq::empty(), ProbeRunStage::Listing(ProbeListing::Resources))
        } else if prompts {
            (r_steps, r_methods, ProbeRunStage::Listing(ProbeListing::Prompts))
        } else {
            (r_steps.push("prompts.list"@), r_methods.push("prompts/list"@), ProbeRunStage::Disconnect)
        },
        ProbeListing::Resources => (Seq::empty(), Seq::empty(), ProbeRunStage::Listing(ProbeListing::ResourceTemplates)),
        ProbeListing::ResourceTemplates => if prompts {
            (Seq::empty(), Seq::empty(), ProbeRunStage::Listing(ProbeListing::Prompts))
        } else {
            (seq!["prompts.list"@], seq!["prompts/list"@], ProbeRunStage::Disconnect)
        },
        ProbeListing::Prompts => (Seq::empty(), Seq::empty(), ProbeRunStage::Disconnect),
    }
}

/// The action that leads into a stage.
pub open spec fn action_for(stage: ProbeRunStage) -> ProbeAction {
    match stage {
        ProbeRunStage::Listing(k) => ProbeAction::List(k),
        ProbeRunStage::Disconnect => ProbeAction::Disconnect,
        ProbeRunStage::Done => ProbeAction::Finish,
    }
}

/// A listing the server does not advertise, as a step.
pub open spec fn unsupported_step(s: ProbeStep, name: Seq<char>) -> bool {
    &&& s.name@ == name
    &&& s.status == ProbeStepStatus::Passed
    &&& opt_view(s.detail) == Some("not supported"@)
    &&& s.data is None
}

/// A listing the server does not advertise, as a method summary.
pub open spec fn unsupported_method(m: CatalogMethodSummary, method: Seq<char>) -> bool {
    &&& m.method@ == method
    &&& m.status == ProbeStepStatus::Passed
    &&& opt_view(m.detail) == Some("not supported"@)
    &&& m.page_count is None
    &&& m.item_count is None
}

/// The settings a run keeps from start to end.
pub open spec fn same_config(s: ProbeRunState, n: ProbeRunState) -> bool {
    &&& n.transport == s.transport
    &&& n.resources_supported == s.resources_supported
    &&& n.prompts_supported == s.prompts_supported
    &&& n.catalog_profile == s.catalog_profile
    &&& n.descriptor_profile == s.descriptor_profile
    &&& match (s.catalog_contract, n.catalog_contract) {
        (Some(a), Some(b)) => contract_same(b, a),
        (None, None) => true,
        _ => false,
    }
}

/// The documents of all listings stay as they were.
pub open spec fn same_docs(s: ProbeRunState, n: ProbeRunState) -> bool {
    &&& opt_json(n.tools) == opt_json(s.tools)
    &&& opt_json(n.resources) == opt_json(s.resources)
    &&& opt_json(n.resource_templates) == opt_json(s.resource_templates)
    &&& opt_json(n.prompts) == opt_json(s.prompts)
}

/// The documents after listing `k` gave `d`.
pub open spec fn docs_after(s: ProbeRunState, n: ProbeRunState, k: ProbeListing, d: Option<JsonValue>) -> bool {
    &&& opt_json(n.tools) == (if k == ProbeListing::Tools { opt_json(d) } else { opt_json(s.tools) })
    &&& opt_json(n.resources) == (if k == ProbeListing::Resources { opt_json(d) } else { opt_json(s.resources) })
    &&& opt_json(n.resource_templates) == (if k == ProbeListing::ResourceTemplates {
        opt_json(d)
    } else {
        opt_json(s.resource_templates)
    })
    &&& opt_json(n.prompts) == (if k == ProbeListing::Prompts { opt_json(d) } else { opt_json(s.prompts) })
}

/// What the catalog contract is held against: the run's transport and
/// profiles and the documents the listings gave.
pub open spec fn snapshot_of<'a>(s: &'a ProbeRunState) -> CatalogContractSnapshot<'a> {
    CatalogContractSnapshot {
        transport: s.transport,
        catalog_profile: s.catalog_profile,
        descriptor_profile: s.descriptor_profile,
        tools: opt_ref(&s.tools),
        resources: opt_ref(&s.resources),
        resource_templates: opt_ref(&s.resource_templates),
        prompts: opt_ref(&s.prompts),
    }
}

pub open spec fn opt_ref<'a>(o: &'a Option<JsonValue>) -> Option<&'a JsonValue> {
    match o {
        Some(v) => Some(v),
        None => None,
    }
}

/// The catalog profile's verdict on the listings' method summaries.
pub open spec fn profile_verdict_of(v: CatalogProfileVerdict, profile: CatalogProfile, methods: Seq<CatalogMethodSummary>) -> bool {
    &&& v.profile == profile
    &&& requirements_view(v.requirements@) == profile_checks(profile, methods).map_values(
        |c: (crate::catalog_profile::RequirementModel, Option<Seq<char>>)| c.0,
    )
    &&& strings_view(v.findings@) == checks_findings(profile_checks(profile, methods))
    &&& v.status == (if v.findings@.len() == 0 { ProbeStepStatus::Passed } else { ProbeStepStatus::Error })
    &&& v.detail@ == profile_detail(profile, strings_view(v.findings@))
}

/// The catalog contract's verdict on a snapshot.
pub open spec fn contract_verdict_of(v: CatalogContractVerdict, c: CatalogContract, snap: CatalogContractSnapshot) -> bool {
    &&& v.schema_version == 1
    &&& v.actual_fingerprint@ == snapshot_fingerprint(snap)
    &&& contract_reqs_view(v.requirements@) == contract_requirements(c, snap)
    &&& strings_view(v.findings@) == failing(contract_requirements(c, snap))
    &&& v.status == (if v.findings@.len() == 0 { ProbeStepStatus::Passed } else { ProbeStepStatus::Error })
    &&& v.detail@ == contract_detail(v.findings@.len())
    &&& contract_same(v.contract, c)
}

/// A verdict's step.
pub open spec fn verdict_step(s: ProbeStep, name: Seq<char>, status: ProbeStepStatus, detail: Seq<char>, data: crate::json::Json) -> bool {
    &&& s.name@ == name
    &&& s.status == status
    &&& opt_view(s.detail) == Some(detail)
    &&& s.data matches Some(d) && d@ == data
}

/// Whether a stderr snapshot holds anything to report.
pub open spec fn snapshot_present(snap: StdioSnapshot) -> bool {
    snap.lines@.len() > 0 || snap.exit_code is Some || snap.signal is Some
}

/// The step that reports what a stdio server wrote to stderr.
pub open spec fn stderr_step(st: ProbeStep, snap: StdioSnapshot) -> bool {
    &&& st.name@ == "stdio.stderr"@
    &&& st.status == ProbeStepStatus::Passed
    &&& st.detail is None
    &&& st.data matches Some(d) && d@ == snapshot_json(snap)
}

/// The steps of the end of a run, from position `i` on: the stderr step
/// when there is one, then the profile's and the contract's steps.
pub open spec fn closing_steps(s: ProbeRunState, n: ProbeRunState, stdio: Option<StdioSnapshot>, steps: Seq<ProbeStep>, i: int) -> bool {
    let has_stdio = stdio matches Some(snap) && snapshot_present(snap);
    let p = if has_stdio { i + 1 } else { i };
    let c = if s.catalog_profile is Some { p + 1 } else { p };
    let end = if s.catalog_contract is Some { c + 1 } else { c };
    &&& steps.len() == end
    &&& match stdio {
        Some(snap) => snapshot_present(snap) ==> stderr_step(steps[i], snap),
        None => true,
    }
    &&& match s.catalog_profile {
        Some(profile) => n.profile_verdict matches Some(v) && profile_verdict_of(v, profile, s.methods@)
            && verdict_step(steps[p], CATALOG_PROFILE_STEP@, v.status, v.detail@, profile_verdict_json(v)),
        None => n.profile_verdict is None,
    }
    &&& match s.catalog_contract {
        Some(contract) => n.contract_verdict matches Some(v) && contract_verdict_of(v, contract, snapshot_of(&s))
            && verdict_step(steps[c], CATALOG_CONTRACT_STEP@, v.status, v.detail@, verdict_json(v)),
        None => n.contract_verdict is None,
    }
}

/// The transition of a probe run.
pub open spec fn probe_transition(s: ProbeRunState, e: ProbeEvent, r: (ProbeRunState, Vec<ProbeStep>, ProbeAction)) -> bool {
    let (n, steps, action) = r;
    &&& same_config(s, n)
    &&& match (s.stage, e) {
        (ProbeRunStage::Listing(k), ProbeEvent::Listed(o)) => {
            let (skip_steps, skip_methods, next) = skip_after(s.resources_supported, s.prompts_supported, k);
            let (m, sn, noun, ck, lk) = listing_names(k);
            let d = listing_doc(o);
            let lead: int = if k == ProbeListing::Tools && d is Some { 2 } else { 1 };
            let base = s.methods@.len();
            &&& listing_matches(m, sn, noun, ck, lk, listing_outcome(o), (n.methods@[base as int], steps@[0]))
            &&& n.methods@.len() == base + 1 + skip_methods.len()
            &&& n.methods@.take(base as int) == s.methods@
            &&& forall|i: int| 0 <= i < skip_methods.len() ==> unsupported_method(#[trigger] n.methods@[base + 1 + i], skip_methods[i])
            &&& steps@.len() == lead + skip_steps.len()
            &&& (k == ProbeListing::Tools && d is Some ==> schema_step_matches(
                steps@[1],
                audit_findings(d.unwrap()@, s.descriptor_profile),
            ))
            &&& forall|i: int| 0 <= i < skip_steps.len() ==> unsupported_step(#[trigger] steps@[lead + i], skip_steps[i])
            &&& docs_after(s, n, k, d)
            &&& n.stage == next && action == action_for(next)
            &&& n.profile_verdict is None && n.contract_verdict is None
        },
        (ProbeRunStage::Disconnect, ProbeEvent::Disconnected { result, stdio }) => {
            &&& n.methods@ == s.methods@
            &&& same_docs(s, n)
            &&& steps@.len() >= 1
            &&& steps@[0].name@ == "disconnect"@ && steps@[0].data is None
            &&& match result {
                Ok(_) => steps@[0].status == ProbeStepStatus::Passed && steps@[0].detail is None,
                Err(m) => steps@[0].status == ProbeStepStatus::Error && opt_view(steps@[0].detail) == Some(m@),
            }
            &&& closing_steps(s, n, stdio, steps@, 1)
            &&& n.stage == ProbeRunStage::Done && action == ProbeAction::Finish
        },
        _ => {
            &&& n.methods@ == s.methods@
            &&& same_docs(s, n)
            &&& steps@.len() == 0
            &&& n.stage == ProbeRunStage::Done && action == ProbeAction::Finish
            &&& n.profile_verdict is None && n.contract_verdict is None
        },
    }
}

// ---------------------------------------------------------------------------
// The executable transition.
// ---------------------------------------------------------------------------

/// Begin a connected probe run: record whether the server described itself
/// and its capabilities, and list its tools first.
pub fn probe_run_start(
    transport: TransportType,
    resources_supported: bool,
    prompts_supported: bool,
    catalog_profile: Option<CatalogProfile>,
    descriptor_profile: Option<ToolDescriptorProfile>,
    catalog_contract: Option<CatalogContract>,
    server_info_available: bool,
    capabilities_available: bool,
) -> (r: (ProbeRunState, Vec<ProbeStep>, ProbeAction))
    ensures
        r.0.stage == ProbeRunStage::Listing(ProbeListing::Tools),
        r.2 == ProbeAction::List(ProbeListing::Tools),
        r.0.transport == transport,
        r.0.resources_supported == resources_supported,
        r.0.prompts_supported == prompts_supported,
        r.0.catalog_profile == catalog_profile,
        r.0.descriptor_profile == effective_profile(descriptor_profile, catalog_profile),
        r.0.catalog_contract == catalog_contract,
        r.0.methods@.len() == 0,
        r.0.tools is None && r.0.resources is None && r.0.resource_templates is None && r.0.prompts is None,
        r.0.profile_verdict is None && r.0.contract_verdict is None,
        r.1@.len() == 2,
        r.1@[0].name@ == "server.info"@ && r.1@[1].name@ == "capabilities"@,
        r.1@[0].status == ProbeStepStatus::Passed && r.1@[1].status == ProbeStepStatus::Passed,
        opt_view(r.1@[0].detail) == (if server_info_available { None } else { Some("not available"@) }),
        opt_view(r.1@[1].detail) == (if capabilities_available { None } else { Some("not available"@) }),
        r.1@[0].data is None && r.1@[1].data is None,
{
    let mut steps: Vec<ProbeStep> = Vec::new();
    steps.push(availability_step("server.info", server_info_available));
    steps.push(availability_step("capabilities", capabilities_available));
    let state = ProbeRunState {
        stage: ProbeRunStage::Listing(ProbeListing::Tools),
        transport,
        resources_supported,
        prompts_supported,
        catalog_profile,
        descriptor_profile: effective_descriptor_profile(descriptor_profile, catalog_profile),
        catalog_contract,
        methods: Vec::new(),
        tools: None,
        resources: None,
        resource_templates: None,
        prompts: None,
        profile_verdict: None,
        contract_verdict: None,
    };
    (state, steps, ProbeAction::List(ProbeListing::Tools))
}

fn listing_names_exec(k: ProbeListing) -> (r: (&'static str, &'static str, &'static str, &'static str, &'static str))
    ensures
        (r.0@, r.1@, r.2@, r.3@, r.4@) == listing_names(k),
{
    match k {
        ProbeListing::Tools => ("tools/list", "tools.list", "tools", "tool_count", "tool_names"),
        ProbeListing::Resources => ("resources/list", "resources.list", "resources", "resource_count", "resource_uris"),
        ProbeListing::ResourceTemplates => (
            "resources/templates/list",
            "resources.templates.list",
            "resource templates",
            "resource_template_count",
            "resource_template_uris",
        ),
        ProbeListing::Prompts => ("prompts/list", "prompts.list", "prompts", "prompt_count", "prompt_names"),
    }
}

fn push_unsupported(methods: &mut Vec<CatalogMethodSummary>, steps: &mut Vec<ProbeStep>, method: &str, name: &str)
    ensures
        final(methods)@ == old(methods)@.push(final(methods)@.last()),
        unsupported_method(final(methods)@.last(), method@),
        final(steps)@ == old(steps)@.push(final(steps)@.last()),
        unsupported_step(final(steps)@.last(), name@),
{
    methods.push(
        CatalogMethodSummary {
            method: String::from_str(method),
            status: ProbeStepStatus::Passed,
            detail: Some(String::from_str("not supported")),
            page_count: None,
            item_count: None,
        },
    );
    steps.push(
        ProbeStep {
            name: String::from_str(name),
            status: ProbeStepStatus::Passed,
            detail: Some(String::from_str("not supported")),
            data: None,
        },
    );
}

fn apply_skips(
    methods: &mut Vec<CatalogMethodSummary>,
    steps: &mut Vec<ProbeStep>,
    resources: bool,
    prompts: bool,
    k: ProbeListing,
) -> (next: ProbeRunStage)
    ensures
        ({
            let (ss, sm, nx) = skip_after(resources, prompts, k);
            let mb = old(methods)@.len();
            let sb = old(steps)@.len();
            &&& next == nx
            &&& final(methods)@.len() == mb + sm.len()
            &&& final(methods)@.take(mb as int) == old(methods)@
            &&& forall|i: int| 0 <= i < sm.len() ==> unsupported_method(#[trigger] final(methods)@[mb + i], sm[i])
            &&& final(steps)@.len() == sb + ss.len()
            &&& final(steps)@.take(sb as int) == old(steps)@
            &&& forall|i: int| 0 <= i < ss.len() ==> unsupported_step(#[trigger] final(steps)@[sb + i], ss[i])
        }),
{
    let ghost m0 = methods@;
    let ghost s0 = steps@;
    match k {
        ProbeListing::Tools => {
            if resources {
                assert(methods@.take(m0.len() as int) =~= m0);
                assert(steps@.take(s0.len() as int) =~= s0);
                ProbeRunStage::Listing(ProbeListing::Resources)
            } else {
                push_unsupported(methods, steps, "resources/list", "resources.list");
                let ghost m1 = methods@;
                let ghost s1 = steps@;
                push_unsupported(methods, steps, "resources/templates/list", "resources.templates.list");
                let ghost m2 = methods@;
                let ghost s2 = steps@;
                if prompts {
                    assert(methods@.take(m0.len() as int) =~= m0);
                    assert(steps@.take(s0.len() as int) =~= s0);
                    assert(methods@[m0.len() as int] == m1.last());
                    assert(steps@[s0.len() as int] == s1.last());
                    ProbeRunStage::Listing(ProbeListing::Prompts)
                } else {
                    push_unsupported(methods, steps, "prompts/list", "prompts.list");
                    assert(methods@.take(m0.len() as int) =~= m0);
                    assert(steps@.take(s0.len() as int) =~= s0);
                    assert(methods@[m0.len() as int] == m1.last());
                    assert(steps@[s0.len() as int] == s1.last());
                    assert(methods@[m0.len() as int + 1] == m2.last());
                    assert(steps@[s0.len() as int + 1] == s2.last());
                    ProbeRunStage::Disconnect
                }
            }
        },
        ProbeListing::Resources => {
            assert(methods@.take(m0.len() as int) =~= m0);
            assert(steps@.take(s0.len() as int) =~= s0);
            ProbeRunStage::Listing(ProbeListing::ResourceTemplates)
        },
        ProbeListing::ResourceTemplates => {
            if prompts {
                assert(methods@.take(m0.len() as int) =~= m0);
                assert(steps@.take(s0.len() as int) =~= s0);
                ProbeRunStage::Listing(ProbeListing::Prompts)
            } else {
                push_unsupported(methods, steps, "prompts/list", "prompts.list");
                assert(methods@.take(m0.len() as int) =~= m0);
                assert(steps@.take(s0.len() as int) =~= s0);
                ProbeRunStage::Disconnect
            }
        },
        ProbeListing::Prompts => {
            assert(methods@.take(m0.len() as int) =~= m0);
            assert(steps@.take(s0.len() as int) =~= s0);
            ProbeRunStage::Disconnect
        },
    }
}

fn opt_ref_exec(o: &Option<JsonValue>) -> (r: Option<&JsonValue>)
    ensures
        r == opt_ref(o),
{
    match o {
        Some(v) => Some(v),
        None => None,
    }
}

fn action_for_exec(stage: ProbeRunStage) -> (r: ProbeAction)
    ensures
        r == action_for(stage),
{
    match stage {
        ProbeRunStage::Listing(k) => ProbeAction::List(k),
        ProbeRunStage::Disconnect => ProbeAction::Disconnect,
        ProbeRunStage::Done => ProbeAction::Finish,
    }
}

fn on_listed(
    state: ProbeRunState,
    k: ProbeListing,
    o: Result<(usize, Vec<String>, Option<JsonValue>), ErrorDetails>,
) -> (r: (ProbeRunState, Vec<ProbeStep>, ProbeAction))
    requires
        state.stage == ProbeRunStage::Listing(k),
    ensures
        probe_transition(state, ProbeEvent::Listed(o), r),
{
    let ghost s = state;
    let ghost oo = o;
    let mut st = state;
    let (m, sn, noun, ck, lk) = listing_names_exec(k);
    let (summary, step, doc) = match o {
        Ok((pages, names, doc)) => {
            let (sm, stp) = listing_report(m, sn, noun, ck, lk, Ok((pages, names.as_slice())));
            (sm, stp, doc)
        },
        Err(e) => {
            let (sm, stp) = listing_report(m, sn, noun, ck, lk, Err(&e));
            (sm, stp, None)
        },
    };
    assert(opt_json(doc) == opt_json(listing_doc(oo)));
    let mut steps: Vec<ProbeStep> = Vec::new();
    steps.push(step);
    let is_tools = match k {
        ProbeListing::Tools => true,
        _ => false,
    };
    if is_tools {
        match &doc {
            Some(d) => {
                steps.push(build_tool_schema_compatibility_step_for_profile(d, st.descriptor_profile));
            },
            None => {},
        }
    }
    let ghost lead = steps@;
    let ghost sm = summary;
    st.methods.push(summary);
    let ghost pushed = st.methods@;
    let next = apply_skips(&mut st.methods, &mut steps, st.resources_supported, st.prompts_supported, k);
    proof {
        assert(pushed[s.methods@.len() as int] == sm);
        assert(st.methods@.take(pushed.len() as int)[s.methods@.len() as int] == pushed[s.methods@.len() as int]);
        assert(st.methods@[s.methods@.len() as int] == sm);
        assert(st.methods@.take(s.methods@.len() as int) =~= s.methods@);
        assert(steps@[0] == lead[0]);
        if is_tools && doc is Some {
            assert(steps@[1] == lead[1]);
        }
    }
    match k {
        ProbeListing::Tools => {
            st.tools = doc;
        },
        ProbeListing::Resources => {
            st.resources = doc;
        },
        ProbeListing::ResourceTemplates => {
            st.resource_templates = doc;
        },
        ProbeListing::Prompts => {
            st.prompts = doc;
        },
    }
    st.stage = next;
    st.profile_verdict = None;
    st.contract_verdict = None;
    (st, steps, action_for_exec(next))
}

fn disconnect_steps(result: Result<(), String>, stdio: &Option<StdioSnapshot>) -> (steps: Vec<ProbeStep>)
    ensures
        steps@.len() >= 1,
        steps@[0].name@ == "disconnect"@ && steps@[0].data is None,
        match result {
            Ok(_) => steps@[0].status == ProbeStepStatus::Passed && steps@[0].detail is None,
            Err(m) => steps@[0].status == ProbeStepStatus::Error && opt_view(steps@[0].detail) == Some(m@),
        },
        steps@.len() == (if (stdio matches Some(snap) && snapshot_present(*snap)) { 2int } else { 1int }),
        match stdio {
            Some(snap) => snapshot_present(*snap) ==> stderr_step(steps@[1], *snap),
            None => true,
        },
{
    let mut steps: Vec<ProbeStep> = Vec::new();
    match result {
        Ok(_) => steps.push(ProbeStep { name: String::from_str("disconnect"), status: ProbeStepStatus::Passed, detail: None, data: None }),
        Err(m) => steps.push(ProbeStep { name: String::from_str("disconnect"), status: ProbeStepStatus::Error, detail: Some(m), data: None }),
    }
    match stdio {
        Some(snap) => match stdio_step(snap) {
            Some(x) => steps.push(x),
            None => {},
        },
        None => {},
    }
    steps
}

#[verifier::spinoff_prover]
#[verifier::rlimit(40)]
fn close_run(state: ProbeRunState, steps: Vec<ProbeStep>) -> (r: (ProbeRunState, Vec<ProbeStep>))
    ensures
        same_config(state, r.0),
        r.0.methods@ == state.methods@,
        same_docs(state, r.0),
        r.1@.len() == steps@.len() + (if state.catalog_profile is Some { 1int } else { 0int }) + (
        if state.catalog_contract is Some { 1int } else { 0int }),
        r.1@.take(steps@.len() as int) == steps@,
        match state.catalog_profile {
            Some(profile) => r.0.profile_verdict matches Some(v) && profile_verdict_of(v, profile, state.methods@)
                && verdict_step(r.1@[steps@.len() as int], CATALOG_PROFILE_STEP@, v.status, v.detail@, profile_verdict_json(v)),
            None => r.0.profile_verdict is None,
        },
        match state.catalog_contract {
            Some(contract) => r.0.contract_verdict matches Some(v) && contract_verdict_of(v, contract, snapshot_of(&state))
                && verdict_step(
                r.1@[steps@.len() + (if state.catalog_profile is Some { 1int } else { 0int })],
                CATALOG_CONTRACT_STEP@,
                v.status,
                v.detail@,
                verdict_json(v),
            ),
            None => r.0.contract_verdict is None,
        },
        r.0.stage == state.stage,
{
    let ghost s = state;
    let ghost s0 = steps@;
    let mut st = state;
    let mut steps = steps;
    match st.catalog_profile {
        Some(p) => {
            let v = evaluate_catalog_profile(p, st.methods.as_slice());
            steps.push(build_catalog_profile_step(&v));
            st.profile_verdict = Some(v);
        },
        None => {
            st.profile_verdict = None;
        },
    }
    let ghost s1 = steps@;
    assert(s1.take(s0.len() as int) =~= s0);
    let cv = match &st.catalog_contract {
        Some(c) => {
            let snap = CatalogContractSnapshot {
                transport: st.transport,
                catalog_profile: st.catalog_profile,
                descriptor_profile: st.descriptor_profile,
                tools: opt_ref_exec(&st.tools),
                resources: opt_ref_exec(&st.resources),
                resource_templates: opt_ref_exec(&st.resource_templates),
                prompts: opt_ref_exec(&st.prompts),
            };
            assert(snap == snapshot_of(&s));
            let v = evaluate_catalog_contract(c, snap);
            steps.push(build_catalog_contract_step(&v));
            Some(v)
        },
        None => None,
    };
    assert(steps@.take(s1.len() as int) =~= s1);
    assert(steps@.take(s0.len() as int) =~= s0);
    st.contract_verdict = cv;
    (st, steps)
}

fn on_disconnected(state: ProbeRunState, result: Result<(), String>, stdio: Option<StdioSnapshot>) -> (r: (
    ProbeRunState,
    Vec<ProbeStep>,
    ProbeAction,
))
    requires
        state.stage == ProbeRunStage::Disconnect,
    ensures
        probe_transition(state, ProbeEvent::Disconnected { result, stdio }, r),
{
    let first = disconnect_steps(result, &stdio);
    let ghost f = first@;
    let (mut st, steps) = close_run(state, first);
    proof {
        assert(steps@[0] == steps@.take(f.len() as int)[0]);
        if stdio matches Some(snap) && snapshot_present(snap) {
            assert(steps@[1] == steps@.take(f.len() as int)[1]);
        }
    }
    st.stage = ProbeRunStage::Done;
    (st, steps, ProbeAction::Finish)
}

/// Advance a probe run by what came of its last action.
pub fn probe_run_step(state: ProbeRunState, event: ProbeEvent) -> (r: (ProbeRunState, Vec<ProbeStep>, ProbeAction))
    ensures
        probe_transition(state, event, r),
{
    match (state.stage, event) {
        (ProbeRunStage::Listing(k), ProbeEvent::Listed(o)) => on_listed(state, k, o),
        (ProbeRunStage::Disconnect, ProbeEvent::Disconnected { result, stdio }) => on_disconnected(state, result, stdio),
        _ => {
            let mut st = state;
            st.stage = ProbeRunStage::Done;
            st.profile_verdict = None;
            st.contract_verdict = None;
            (st, Vec::new(), ProbeAction::Finish)
        },
    }
}

// ---------------------------------------------------------------------------
// The handshake probe: initialize (done by connecting), ping, list tools.
// ---------------------------------------------------------------------------

/// Where a handshake stands.
#[derive(Clone, Copy, PartialEq, Eq, Structural)]
pub enum HandshakeStage {
    Ping,
    Tools,
    Close,
    Done,
}

/// The state of a connected handshake probe.
pub struct HandshakeState {
    pub stage: HandshakeStage,
    pub transport: TransportType,
    pub descriptor_profile: ToolDescriptorProfile,
    pub tools: Option<JsonValue>,
}

/// What came of the last action: the ping's reply (when it could be
/// rendered as JSON) or error; the tools listing as for a full probe; or
/// the close, with what a stdio server wrote to stderr.
pub enum HandshakeEvent {
    Pinged(Result<Option<JsonValue>, ErrorDetails>),
    Listed(Result<(usize, Vec<String>, Option<JsonValue>), ErrorDetails>),
    Closed { stdio: Option<StdioSnapshot> },
}

/// What the caller does next.
#[derive(PartialEq, Eq, Structural)]
pub enum HandshakeAction {
    Ping,
    ListTools,
    Close,
    Finish,
}

/// The `ping` step: it passes with the reply as data, or fails with the
/// error's message and data.
pub open spec fn ping_step(s: ProbeStep, o: Result<Option<JsonValue>, ErrorDetails>) -> bool {
    &&& s.name@ == "ping"@
    &&& match o {
        Ok(d) => s.status == ProbeStepStatus::Passed && s.detail is None && opt_json(s.data) == opt_json(d),
        Err(e) => s.status == ProbeStepStatus::Error && opt_view(s.detail) == Some(e.message@) && opt_json(s.data)
            == opt_json(e.data),
    }
}

/// The transition of a handshake probe.
pub open spec fn handshake_transition(
    s: HandshakeState,
    e: HandshakeEvent,
    r: (HandshakeState, Vec<ProbeStep>, HandshakeAction),
) -> bool {
    let (n, steps, action) = r;
    &&& n.transport == s.transport
    &&& n.descriptor_profile == s.descriptor_profile
    &&& match (s.stage, e) {
        (HandshakeStage::Ping, HandshakeEvent::Pinged(o)) => {
            &&& steps@.len() == 1 && ping_step(steps@[0], o)
            &&& opt_json(n.tools) == opt_json(s.tools)
            &&& n.stage == HandshakeStage::Tools && action == HandshakeAction::ListTools
        },
        (HandshakeStage::Tools, HandshakeEvent::Listed(o)) => {
            let (m, sn, noun, ck, lk) = listing_names(ProbeListing::Tools);
            let d = listing_doc(o);
            &&& exists|summary: CatalogMethodSummary|
                #[trigger] listing_matches(m, sn, noun, ck, lk, listing_outcome(o), (summary, steps@[0]))
            &&& steps@.len() == (if d is Some { 2int } else { 1int })
            &&& (d matches Some(doc) ==> schema_step_matches(steps@[1], audit_findings(doc@, s.descriptor_profile)))
            &&& opt_json(n.tools) == opt_json(d)
            &&& n.stage == HandshakeStage::Close && action == HandshakeAction::Close
        },
        (HandshakeStage::Close, HandshakeEvent::Closed { stdio }) => {
            &&& steps@.len() == (if (stdio matches Some(snap) && snapshot_present(snap)) { 1int } else { 0int })
            &&& match stdio {
                Some(snap) => snapshot_present(snap) ==> stderr_step(steps@[0], snap),
                None => true,
            }
            &&& opt_json(n.tools) == opt_json(s.tools)
            &&& n.stage == HandshakeStage::Done && action == HandshakeAction::Finish
        },
        _ => {
            &&& steps@.len() == 0
            &&& opt_json(n.tools) == opt_json(s.tools)
            &&& n.stage == HandshakeStage::Done && action == HandshakeAction::Finish
        },
    }
}

/// Begin a connected handshake probe: record whether the server described
/// itself and its capabilities, then ping it.
pub fn handshake_start(
    transport: TransportType,
    descriptor_profile: Option<ToolDescriptorProfile>,
    catalog_profile: Option<CatalogProfile>,
    server_info_available: bool,
    capabilities_available: bool,
) -> (r: (HandshakeState, Vec<ProbeStep>, HandshakeAction))
    ensures
        r.0.stage == HandshakeStage::Ping,
        r.2 == HandshakeAction::Ping,
        r.0.transport == transport,
        r.0.descriptor_profile == effective_profile(descriptor_profile, catalog_profile),
        r.0.tools is None,
        r.1@.len() == 2,
        r.1@[0].name@ == "server.info"@ && r.1@[1].name@ == "capabilities"@,
        r.1@[0].status == ProbeStepStatus::Passed && r.1@[1].status == ProbeStepStatus::Passed,
        opt_view(r.1@[0].detail) == (if server_info_available { None } else { Some("not available"@) }),
        opt_view(r.1@[1].detail) == (if capabilities_available { None } else { Some("not available"@) }),
        r.1@[0].data is None && r.1@[1].data is None,
{
    let mut steps: Vec<ProbeStep> = Vec::new();
    steps.push(availability_step("server.info", server_info_available));
    steps.push(availability_step("capabilities", capabilities_available));
    let state = HandshakeState {
        stage: HandshakeStage::Ping,
        transport,
        descriptor_profile: effective_descriptor_profile(descriptor_profile, catalog_profile),
        tools: None,
    };
    (state, steps, HandshakeAction::Ping)
}

fn ping_step_exec(o: Result<Option<JsonValue>, ErrorDetails>) -> (r: ProbeStep)
    ensures
        ping_step(r, o),
{
    match o {
        Ok(d) => ProbeStep { name: String::from_str("ping"), status: ProbeStepStatus::Passed, detail: None, data: d },
        Err(e) => {
            let data = crate::probe::errors::error_data(&e);
            ProbeStep { name: String::from_str("ping"), status: ProbeStepStatus::Error, detail: Some(e.message), data }
        },
    }
}

fn hs_pinged(state: HandshakeState, o: Result<Option<JsonValue>, ErrorDetails>) -> (r: (HandshakeState, Vec<ProbeStep>, HandshakeAction))
    requires
        state.stage == HandshakeStage::Ping,
    ensures
        handshake_transition(state, HandshakeEvent::Pinged(o), r),
{
    let mut st = state;
    let mut steps: Vec<ProbeStep> = Vec::new();
    steps.push(ping_step_exec(o));
    st.stage = HandshakeStage::Tools;
    (st, steps, HandshakeAction::ListTools)
}

fn hs_listed(state: HandshakeState, o: Result<(usize, Vec<String>, Option<JsonValue>), ErrorDetails>) -> (r: (
    HandshakeState,
    Vec<ProbeStep>,
    HandshakeAction,
))
    requires
        state.stage == HandshakeStage::Tools,
    ensures
        handshake_transition(state, HandshakeEvent::Listed(o), r),
{
    let mut st = state;
    let ghost oo = o;
    let (m, sn, noun, ck, lk) = listing_names_exec(ProbeListing::Tools);
    let (summary, step, doc) = match o {
        Ok((pages, names, doc)) => {
            let (sm, stp) = listing_report(m, sn, noun, ck, lk, Ok((pages, names.as_slice())));
            (sm, stp, doc)
        },
        Err(e) => {
            let (sm, stp) = listing_report(m, sn, noun, ck, lk, Err(&e));
            (sm, stp, None)
        },
    };
    assert(opt_json(doc) == opt_json(listing_doc(oo)));
    let mut steps: Vec<ProbeStep> = Vec::new();
    steps.push(step);
    match &doc {
        Some(d) => {
            steps.push(build_tool_schema_compatibility_step_for_profile(d, st.descriptor_profile));
        },
        None => {},
    }
    let ghost names = listing_names(ProbeListing::Tools);
    assert(listing_matches(names.0, names.1, names.2, names.3, names.4, listing_outcome(oo), (summary, steps@[0])));
    st.tools = doc;
    st.stage = HandshakeStage::Close;
    (st, steps, HandshakeAction::Close)
}

fn hs_closed(state: HandshakeState, stdio: Option<StdioSnapshot>) -> (r: (HandshakeState, Vec<ProbeStep>, HandshakeAction))
    requires
        state.stage == HandshakeStage::Close,
    ensures
        handshake_transition(state, HandshakeEvent::Closed { stdio }, r),
{
    let mut st = state;
    let mut steps: Vec<ProbeStep> = Vec::new();
    match &stdio {
        Some(snap) => match stdio_step(snap) {
            Some(x) => steps.push(x),
            None => {},
        },
        None => {},
    }
    st.stage = HandshakeStage::Done;
    (st, steps, HandshakeAction::Finish)
}

/// Advance a handshake probe by what came of its last action.
pub fn handshake_step(state: HandshakeState, event: HandshakeEvent) -> (r: (HandshakeState, Vec<ProbeStep>, HandshakeAction))
    ensures
        handshake_transition(state, event, r),
{
    match (state.stage, event) {
        (HandshakeStage::Ping, HandshakeEvent::Pinged(o)) => hs_pinged(state, o),
        (HandshakeStage::Tools, HandshakeEvent::Listed(o)) => hs_listed(state, o),
        (HandshakeStage::Close, HandshakeEvent::Closed { stdio }) => hs_closed(state, stdio),
        _ => {
            let mut st = state;
            st.stage = HandshakeStage::Done;
            (st, Vec::new(), HandshakeAction::Finish)
        },
    }
}

} // verus!
