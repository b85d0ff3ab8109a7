//! Decisions a probe run makes around its connection: the parameters it
//! sends, how an expected auth challenge is recognized, and the steps that
//! report connection outcomes.

use vstd::prelude::*;
use crate::json::{object_insert, object_insert_all, object_insert_exec, view_entries, Json, JsonValue};
use crate::probe::errors::{error_data, ErrorDetails};
use crate::report::{AuthDiscovery, ProbeStep, ProbeStepStatus};
use crate::text::{contains_seq, lowercase, opt_view, trim};

pub mod auth_diagnostics;
pub mod auth_discovery;
pub mod errors;
pub mod gate;
pub mod discovery;
pub mod options;
pub mod run;

verus! {

/// Default client name used for probe connections.
pub const DEFAULT_CLIENT_NAME: &'static str = "mcp-toolkit";

/// Default client version used for probe connections.
pub const DEFAULT_CLIENT_VERSION: &'static str = "0.0.0";

/// Most pages a catalog listing is drained for.
pub const MAX_DISCOVERY_LIST_PAGES: usize = 64;

/// Probe target configuration for connection-based checks; environment
/// and headers are name/value pairs with distinct names.
pub struct ProbeTarget {
    pub transport_type: crate::transport::TransportType,
    pub command: Option<String>,
    pub args: Option<Vec<String>>,
    pub cwd: Option<String>,
    pub env: Option<Vec<(String, String)>>,
    pub url: Option<String>,
    pub headers: Option<Vec<(String, String)>>,
    pub timeout_ms: Option<u64>,
    pub retries: Option<u32>,
    pub retry_delay_ms: Option<u64>,
    pub expect_auth_required: Option<bool>,
    pub log_level: Option<crate::logging::LogLevel>,
    pub log_format: Option<crate::logging::LogFormat>,
    pub trace: Option<bool>,
    pub trace_limit: Option<usize>,
    pub trace_max_bytes: Option<usize>,
    pub descriptor_profile: Option<crate::schema_compat::ToolDescriptorProfile>,
    pub catalog_profile: Option<crate::report::CatalogProfile>,
    pub catalog_contract: Option<crate::report::CatalogContract>,
}

/// Target configuration for auth discovery and HTTP smoke checks.
pub struct AuthDiscoveryTarget {
    pub url: Option<String>,
    pub timeout_ms: Option<u64>,
    pub expect_auth_required: Option<bool>,
    pub expect_registration_endpoint: Option<bool>,
}

/// HTTP smoke checks take the same target as auth discovery.
pub type HttpSmokeTarget = AuthDiscoveryTarget;

/// Target configuration for raw JSON-RPC requests.
pub struct RawRequestTarget {
    pub transport_type: crate::transport::TransportType,
    pub command: Option<String>,
    pub args: Option<Vec<String>>,
    pub cwd: Option<String>,
    pub env: Option<Vec<(String, String)>>,
    pub url: Option<String>,
    pub headers: Option<Vec<(String, String)>>,
    pub timeout_ms: Option<u64>,
    pub retries: Option<u32>,
    pub retry_delay_ms: Option<u64>,
    pub expect_auth_required: Option<bool>,
    pub log_level: Option<crate::logging::LogLevel>,
    pub log_format: Option<crate::logging::LogFormat>,
    pub trace: Option<bool>,
    pub trace_limit: Option<usize>,
    pub trace_max_bytes: Option<usize>,
    pub method: String,
    pub params: Option<JsonValue>,
    pub expect_error: Option<ExpectError>,
}

/// Expected error configuration for raw requests.
pub enum ExpectError {
    Bool(bool),
    String(String),
}

/// Whether an error is expected, and the text it must hold.
pub open spec fn expected_error(e: Option<ExpectError>) -> (bool, Option<Seq<char>>) {
    match e {
        Some(ExpectError::Bool(b)) => (b, None),
        Some(ExpectError::String(s)) => (true, Some(s@)),
        None => (false, None),
    }
}

/// Resolve an expected-error setting into whether an error is expected and
/// the text it must contain.
pub fn resolve_expect_error(expect_error: &Option<ExpectError>) -> (r: (bool, Option<&str>))
    ensures
        r.0 == expected_error(*expect_error).0,
        match r.1 {
            Some(s) => expected_error(*expect_error).1 == Some(s@),
            None => expected_error(*expect_error).1 is None,
        },
{
    match expect_error {
        Some(ExpectError::Bool(b)) => (*b, None),
        Some(ExpectError::String(value)) => (true, Some(value.as_str())),
        None => (false, None),
    }
}

/// The `prompts/get` parameters: the prompt name and, when given, its
/// arguments as an object (a later argument replacing an earlier one of the
/// same name), keys in sorted order.
pub open spec fn prompt_params(name: Seq<char>, arguments: Option<Seq<(Seq<char>, Json)>>) -> Json {
    Json::Object(
        match arguments {
            Some(a) => seq![
                ("arguments"@, Json::Object(object_insert_all(Seq::empty(), a))),
                ("name"@, Json::Str(name)),
            ],
            None => seq![("name"@, Json::Str(name))],
        },
    )
}

/// Build the canonical MCP `prompts/get` params object used by prompt
/// render probes.
pub fn build_prompt_render_params(prompt_name: &str, arguments: Option<Vec<(String, JsonValue)>>) -> (r:
    JsonValue)
    ensures
        r@ == prompt_params(
            prompt_name@,
            match arguments {
                Some(a) => Some(view_entries(a@)),
                None => None,
            },
        ),
{
    let ghost argv = match &arguments {
        Some(a) => Some(view_entries(a@)),
        None => None,
    };
    let mut params: Vec<(String, JsonValue)> = Vec::new();
    match arguments {
        Some(args) => {
            let ghost av = view_entries(args@);
            proof {
                crate::json::lemma_view_entries(args@);
            }
            let mut obj: Vec<(String, JsonValue)> = Vec::new();
            let mut i: usize = 0;
            proof {
                assert(av.subrange(0, 0) =~= Seq::<(Seq<char>, Json)>::empty());
                assert(view_entries(obj@) =~= Seq::<(Seq<char>, Json)>::empty());
            }
            while i < args.len()
                invariant
                    i <= args@.len(),
                    av == view_entries(args@),
                    av.len() == args@.len(),
                    forall|k: int| 0 <= k < args@.len() ==> #[trigger] av[k] == (args@[k].0@, args@[k].1@),
                    view_entries(obj@) == object_insert_all(Seq::empty(), av.subrange(0, i as int)),
                decreases args@.len() - i,
            {
                proof {
                    let pre = av.subrange(0, i + 1);
                    assert(pre.drop_last() =~= av.subrange(0, i as int));
                    assert(pre.last() == av[i as int]);
                }
                object_insert_exec(&mut obj, args[i].0.clone(), args[i].1.deep_clone());
                i = i + 1;
            }
            proof {
                assert(av.subrange(0, i as int) =~= av);
            }
            params.push((String::from_str("arguments"), JsonValue::Object(obj)));
        },
        None => {},
    }
    params.push((String::from_str("name"), JsonValue::String(String::from_str(prompt_name))));
    proof {
        crate::json::lemma_view_entries(params@);
    }
    proof {
        assert(view_entries(params@) =~= match prompt_params(prompt_name@, argv) {
            Json::Object(es) => es,
            _ => Seq::empty(),
        });
    }
    JsonValue::Object(params)
}

/// Build the canonical MCP resource params object used by resource probes.
pub fn build_resource_uri_params(uri: &str) -> (r: JsonValue)
    ensures
        r@ == Json::Object(seq![("uri"@, Json::Str(uri@))]),
{
    let mut params: Vec<(String, JsonValue)> = Vec::new();
    params.push((String::from_str("uri"), JsonValue::String(String::from_str(uri))));
    proof {
        crate::json::lemma_view_entries(params@);
    }
    proof {
        assert(view_entries(params@) =~= seq![("uri"@, Json::Str(uri@))]);
    }
    JsonValue::Object(params)
}

/// `needle` occurs in `haystack`, both lower-cased.
pub open spec fn contains_ci(haystack: Seq<char>, needle: Seq<char>) -> bool {
    contains_seq(lowercase(haystack), lowercase(needle))
}

fn contains_ci_exec(haystack: &str, needle: &str) -> (r: bool)
    ensures
        r == contains_ci(haystack@, needle@),
{
    let h = crate::text::to_lowercase(haystack);
    let n = crate::text::to_lowercase(needle);
    crate::text::str_contains(h.as_str(), n.as_str())
}

/// A connection error message that reads as a missing or refused
/// credential.
pub open spec fn auth_failure_message(m: Seq<char>) -> bool {
    contains_ci(m, "missing token"@) || contains_ci(m, "missing bearer"@) || contains_ci(m, "auth required"@)
        || contains_ci(m, "auth.missing_token"@) || contains_ci(m, "unauthorized"@) || contains_ci(m, "401"@)
}

/// Some step named `expect.auth_required` passed.
pub open spec fn auth_expectation_passed(steps: Seq<ProbeStep>) -> bool {
    exists|i: int|
        0 <= i < steps.len() && (#[trigger] steps[i]).name@ == "expect.auth_required"@ && steps[i].status
            == ProbeStepStatus::Passed
}

/// Discovery found where the protected resource's auth is described.
pub open spec fn auth_discovered(auth: Option<AuthDiscovery>) -> bool {
    match auth {
        Some(d) => d.resource_metadata_url is Some || d.resource_metadata is Some || d.authorization_server is Some,
        None => false,
    }
}

/// A connection failure is the auth challenge the run expected: an auth
/// challenge was expected and confirmed, discovery found the auth metadata,
/// and the message reads as an auth failure.
pub fn is_expected_auth_required_connect_error(
    steps: &[ProbeStep],
    auth: Option<&AuthDiscovery>,
    message: &str,
    expect_auth_required: Option<bool>,
) -> (r: bool)
    ensures
        r == (expect_auth_required == Some(true) && auth_expectation_passed(steps@) && auth_discovered(
            match auth {
                Some(d) => Some(*d),
                None => None,
            },
        ) && auth_failure_message(message@)),
{
    if expect_auth_required != Some(true) {
        return false;
    }
    let mut found = false;
    let mut i: usize = 0;
    while i < steps.len()
        invariant
            i <= steps@.len(),
            found == exists|j: int|
                0 <= j < i && (#[trigger] steps@[j]).name@ == "expect.auth_required"@ && steps@[j].status
                    == ProbeStepStatus::Passed,
        decreases steps@.len() - i,
    {
        if crate::text::str_eq(steps[i].name.as_str(), "expect.auth_required") && steps[i].status
            == ProbeStepStatus::Passed {
            found = true;
        }
        i = i + 1;
    }
    if !found {
        return false;
    }
    let discovered = match auth {
        Some(d) => d.resource_metadata_url.is_some() || d.resource_metadata.is_some()
            || d.authorization_server.is_some(),
        None => false,
    };
    if !discovered {
        return false;
    }
    contains_ci_exec(message, "missing token") || contains_ci_exec(message, "missing bearer")
        || contains_ci_exec(message, "auth required") || contains_ci_exec(message, "auth.missing_token")
        || contains_ci_exec(message, "unauthorized") || contains_ci_exec(message, "401")
}

/// The registration endpoint is advertised: present and not blank.
pub open spec fn registration_advertised(auth: Option<AuthDiscovery>) -> bool {
    match auth {
        Some(d) => match d.registration_endpoint {
            Some(e) => trim(e@).len() > 0,
            None => false,
        },
        None => false,
    }
}

/// The step that reports the registration endpoint against the
/// expectation: it fails only when an endpoint was expected and none is
/// advertised; its data carries the endpoint when discovery returned one.
pub open spec fn registration_step_matches(
    step: ProbeStep,
    auth: Option<AuthDiscovery>,
    expect_registration_endpoint: Option<bool>,
) -> bool {
    let expected = expect_registration_endpoint == Some(true);
    let advertised = registration_advertised(auth);
    &&& step.name@ == "auth.oauth.registration"@
    &&& step.status == (if expected && !advertised {
        ProbeStepStatus::Error
    } else {
        ProbeStepStatus::Passed
    })
    &&& opt_view(step.detail) == Some(
        if advertised {
            "registration_endpoint advertised"@
        } else if expected {
            "Missing registration_endpoint in OAuth metadata"@
        } else {
            "registration_endpoint not advertised"@
        },
    )
    &&& match auth {
        Some(d) => match d.registration_endpoint {
            Some(e) => step.data matches Some(j) && j@ == Json::Object(seq![("registration_endpoint"@, Json::Str(e@))]),
            None => step.data is None,
        },
        None => step.data is None,
    }
}

/// Record whether OAuth metadata advertises a registration endpoint,
/// failing when one was expected and is missing.
pub fn apply_expect_registration_endpoint(
    steps: &mut Vec<ProbeStep>,
    auth: Option<&AuthDiscovery>,
    expect_registration_endpoint: Option<bool>,
)
    ensures
        final(steps)@.len() == old(steps)@.len() + 1,
        final(steps)@.drop_last() == old(steps)@,
        registration_step_matches(
            final(steps)@.last(),
            match auth {
                Some(d) => Some(*d),
                None => None,
            },
            expect_registration_endpoint,
        ),
{
    let advertised = match auth {
        Some(d) => match &d.registration_endpoint {
            Some(e) => !crate::text::is_blank_str(e.as_str()),
            None => false,
        },
        None => false,
    };
    let expected = match expect_registration_endpoint {
        Some(b) => b,
        None => false,
    };
    let (status, detail) = if expected && !advertised {
        (ProbeStepStatus::Error, String::from_str("Missing registration_endpoint in OAuth metadata"))
    } else if advertised {
        (ProbeStepStatus::Passed, String::from_str("registration_endpoint advertised"))
    } else {
        (ProbeStepStatus::Passed, String::from_str("registration_endpoint not advertised"))
    };
    let data = match auth {
        Some(d) => match &d.registration_endpoint {
            Some(e) => {
                let mut m: Vec<(String, JsonValue)> = Vec::new();
                m.push((String::from_str("registration_endpoint"), JsonValue::String(e.clone())));
                proof {
                    crate::json::lemma_view_entries(m@);
                }
                proof {
                    assert(view_entries(m@) =~= seq![("registration_endpoint"@, Json::Str(e@))]);
                }
                Some(JsonValue::Object(m))
            },
            None => None,
        },
        None => None,
    };
    let ghost before = steps@;
    steps.push(ProbeStep { name: String::from_str("auth.oauth.registration"), status, detail: Some(detail), data });
    assert(steps@.drop_last() =~= before);
}

/// An optional member: none, or one entry.
pub open spec fn opt_member(key: Seq<char>, v: Option<JsonValue>) -> Seq<(Seq<char>, Json)> {
    match v {
        Some(j) => seq![(key, j@)],
        None => Seq::empty(),
    }
}

/// The data of a failed step: the error's data (an object's members, or
/// the value under `error`), then `stdio` and `trace`, as object inserts.
pub open spec fn error_step_data(details: ErrorDetails, stdio: Option<JsonValue>, trace: Option<JsonValue>) -> Seq<
    (Seq<char>, Json),
> {
    let base = match details.data {
        Some(d) => match d@ {
            Json::Object(m) => object_insert_all(Seq::empty(), m),
            other => seq![("error"@, other)],
        },
        None => Seq::empty(),
    };
    object_insert_all(base, opt_member("stdio"@, stdio) + opt_member("trace"@, trace))
}

fn insert_opt(m: &mut Vec<(String, JsonValue)>, key: &str, v: Option<JsonValue>)
    ensures
        view_entries(final(m)@) == object_insert_all(view_entries(old(m)@), opt_member(key@, v)),
{
    match v {
        Some(j) => {
            let ghost jv = j@;
            let ghost s = opt_member(key@, v);
            let ghost start = view_entries(m@);
            proof {
                assert(s.len() == 1);
                assert(s.drop_last() =~= Seq::<(Seq<char>, Json)>::empty());
                assert(s.last() == (key@, jv));
                assert(object_insert_all(start, s.drop_last()) == start);
                assert(object_insert_all(start, s) == object_insert(start, key@, jv));
            }
            object_insert_exec(m, String::from_str(key), j);
        },
        None => {},
    }
}

proof fn lemma_insert_all_concat(es: Seq<(Seq<char>, Json)>, a: Seq<(Seq<char>, Json)>, b: Seq<(Seq<char>, Json)>)
    ensures
        object_insert_all(es, a + b) == object_insert_all(object_insert_all(es, a), b),
    decreases b.len(),
{
    if b.len() == 0 {
        assert(a + b =~= a);
    } else {
        lemma_insert_all_concat(es, a, b.drop_last());
        assert((a + b).drop_last() =~= a + b.drop_last());
        assert((a + b).last() == b.last());
    }
}

fn insert_all_exec(m: &mut Vec<(String, JsonValue)>, pairs: &Vec<(String, JsonValue)>)
    ensures
        view_entries(final(m)@) == object_insert_all(view_entries(old(m)@), view_entries(pairs@)),
{
    let ghost start = view_entries(m@);
    let ghost pv = view_entries(pairs@);
    proof {
        crate::json::lemma_view_entries(pairs@);
        assert(pv.subrange(0, 0) =~= Seq::<(Seq<char>, Json)>::empty());
    }
    let mut i: usize = 0;
    while i < pairs.len()
        invariant
            i <= pairs@.len(),
            pv == view_entries(pairs@),
            pv.len() == pairs@.len(),
            forall|k: int| 0 <= k < pairs@.len() ==> #[trigger] pv[k] == (pairs@[k].0@, pairs@[k].1@),
            view_entries(m@) == object_insert_all(start, pv.subrange(0, i as int)),
        decreases pairs@.len() - i,
    {
        proof {
            let pre = pv.subrange(0, i + 1);
            assert(pre.drop_last() =~= pv.subrange(0, i as int));
            assert(pre.last() == pv[i as int]);
        }
        object_insert_exec(m, pairs[i].0.clone(), pairs[i].1.deep_clone());
        i = i + 1;
    }
    proof {
        assert(pv.subrange(0, i as int) =~= pv);
    }
}

/// The step for a failed probe stage: it fails with the error's message,
/// carrying its data, the stdio capture and the trace when there are any.
pub fn map_error_step(name: &str, details: &ErrorDetails, stdio: Option<JsonValue>, trace: Option<JsonValue>) -> (r:
    ProbeStep)
    ensures
        r.name@ == name@,
        r.status == ProbeStepStatus::Error,
        opt_view(r.detail) == Some(details.message@),
        match r.data {
            Some(d) => error_step_data(*details, stdio, trace).len() > 0 && d@ == Json::Object(
                error_step_data(*details, stdio, trace),
            ),
            None => error_step_data(*details, stdio, trace).len() == 0,
        },
{
    let mut m: Vec<(String, JsonValue)> = Vec::new();
    proof {
        assert(view_entries(m@) =~= Seq::<(Seq<char>, Json)>::empty());
    }
    match error_data(details) {
        Some(JsonValue::Object(members)) => {
            insert_all_exec(&mut m, &members);
        },
        Some(other) => {
            object_insert_exec(&mut m, String::from_str("error"), other);
        },
        None => {},
    }
    let ghost base = view_entries(m@);
    insert_opt(&mut m, "stdio", stdio);
    insert_opt(&mut m, "trace", trace);
    proof {
        lemma_insert_all_concat(base, opt_member("stdio"@, stdio), opt_member("trace"@, trace));
    }
    let data = if m.len() == 0 {
        None
    } else {
        Some(JsonValue::Object(m))
    };
    ProbeStep {
        name: String::from_str(name),
        status: ProbeStepStatus::Error,
        detail: Some(details.message.clone()),
        data,
    }
}

/// The detail of a connection stopped by the expected auth challenge.
pub open spec fn auth_required_detail() -> Seq<char> {
    "Auth challenge detected as expected; handshake stopped before authenticated initialization."@
}

/// The data of that step: the flag, the error's message and data, then
/// the stdio capture and trace when there are any, keys in sorted order.
pub open spec fn auth_required_data(details: ErrorDetails, stdio: Option<JsonValue>, trace: Option<JsonValue>) -> Json {
    Json::Object(
        seq![("connect_error"@, Json::Str(details.message@))] + opt_member("connect_error_data"@, details.data)
            + seq![("expected_auth_required"@, Json::Bool(true))] + opt_member("stdio"@, stdio) + opt_member(
            "trace"@,
            trace,
        ),
    )
}

fn push_opt(m: &mut Vec<(String, JsonValue)>, key: &str, v: Option<JsonValue>)
    ensures
        view_entries(final(m)@) == view_entries(old(m)@) + opt_member(key@, v),
{
    let ghost before = m@;
    match v {
        Some(j) => {
            m.push((String::from_str(key), j));
            assert(m@.drop_last() =~= before);
            assert(view_entries(m@) =~= view_entries(before) + opt_member(key@, v));
        },
        None => {
            assert(view_entries(m@) =~= view_entries(before) + opt_member(key@, v));
        },
    }
}

/// The passing step for a connection stopped by the expected auth
/// challenge, with machine-readable data.
pub fn map_expected_auth_required_connect_step(
    details: &ErrorDetails,
    stdio: Option<JsonValue>,
    trace: Option<JsonValue>,
) -> (r: ProbeStep)
    ensures
        r.name@ == "connect.auth_required"@,
        r.status == ProbeStepStatus::Passed,
        opt_view(r.detail) == Some(auth_required_detail()),
        r.data matches Some(d) && d@ == auth_required_data(*details, stdio, trace),
{
    let mut m: Vec<(String, JsonValue)> = Vec::new();
    push_opt(&mut m, "connect_error", Some(JsonValue::String(details.message.clone())));
    push_opt(&mut m, "connect_error_data", error_data(details));
    push_opt(&mut m, "expected_auth_required", Some(JsonValue::Bool(true)));
    push_opt(&mut m, "stdio", stdio);
    push_opt(&mut m, "trace", trace);
    proof {
        assert(view_entries(m@) =~= match auth_required_data(*details, stdio, trace) {
            Json::Object(es) => es,
            _ => Seq::empty(),
        });
    }
    ProbeStep {
        name: String::from_str("connect.auth_required"),
        status: ProbeStepStatus::Passed,
        detail: Some(
            String::from_str(
                "Auth challenge detected as expected; handshake stopped before authenticated initialization.",
            ),
        ),
        data: Some(JsonValue::Object(m)),
    }
}

} // verus!

verus! {

/// What follows one page of a paginated discovery listing.
pub enum PageStep {
    /// No next cursor: the listing is complete.
    Done,
    /// Ask for the page at this cursor.
    Next(String),
    /// The page limit was reached with a cursor still given.
    Exceeded(String),
}

/// After `page_count` pages of the listing `method`, a next cursor that is
/// absent or blank ends it; past the page limit it is a failure; else its
/// trimmed text is the next cursor.
pub open spec fn page_step_matches(method: Seq<char>, page_count: usize, next_cursor: Option<Seq<char>>, r: PageStep) -> bool {
    match next_cursor {
        Some(c) if trim(c).len() > 0 => if page_count >= MAX_DISCOVERY_LIST_PAGES {
            r matches PageStep::Exceeded(m) && m@ == method + " pagination exceeded "@ + crate::text::decimal(
                MAX_DISCOVERY_LIST_PAGES as nat,
            ) + " pages without reaching the end"@
        } else {
            r matches PageStep::Next(n) && n@ == trim(c)
        },
        _ => r is Done,
    }
}

/// Decide what follows a page of a paginated listing.
pub fn next_page(method: &str, page_count: usize, next_cursor: Option<&str>) -> (r: PageStep)
    ensures
        page_step_matches(
            method@,
            page_count,
            match next_cursor {
                Some(c) => Some(c@),
                None => None,
            },
            r,
        ),
{
    let c = match next_cursor {
        None => {
            return PageStep::Done;
        },
        Some(c) => crate::text::trim_str(c),
    };
    if crate::text::chars_of(c.as_str()).len() == 0 {
        return PageStep::Done;
    }
    if page_count >= MAX_DISCOVERY_LIST_PAGES {
        let mut m = String::from_str(method);
        m.append(" pagination exceeded ");
        let n = crate::text::fmt_usize(MAX_DISCOVERY_LIST_PAGES);
        m.append(n.as_str());
        m.append(" pages without reaching the end");
        return PageStep::Exceeded(m);
    }
    PageStep::Next(c)
}

/// A listing that follows `next_page` asks for no page past the limit:
/// a next page is only ever given below it.
pub proof fn lemma_pages_bounded(method: Seq<char>, page_count: usize, next_cursor: Option<Seq<char>>, r: PageStep)
    requires
        page_step_matches(method, page_count, next_cursor, r),
    ensures
        r is Next ==> page_count < MAX_DISCOVERY_LIST_PAGES,
        next_cursor is None ==> r is Done,
{
}

} // verus!

verus! {

/// The detail of a GET answered by a stateful endpoint that wants a
/// session first.
pub const STATEFUL_GET_DETAIL: &'static str = "HTTP 400 Bad Request (stateful MCP endpoint requires session initialization)";

/// The `http.get` step of an HTTP smoke run: a stateful endpoint's reply
/// (its diagnostic data given) passes; otherwise a success, 401 or 403
/// passes and anything else fails, the detail naming the status.
pub open spec fn http_get_step_matches(status: u16, status_text: Seq<char>, stateful: Option<Json>, r: ProbeStep) -> bool {
    &&& r.name@ == "http.get"@
    &&& match stateful {
        Some(d) => r.status == ProbeStepStatus::Passed && opt_view(r.detail) == Some(STATEFUL_GET_DETAIL@)
            && (r.data matches Some(x) && x@ == d),
        None => r.status == (if (200 <= status < 300) || status == 401 || status == 403 {
            ProbeStepStatus::Passed
        } else {
            ProbeStepStatus::Error
        }) && opt_view(r.detail) == Some("HTTP "@ + status_text) && r.data is None,
    }
}

/// The `http.get` step of an HTTP smoke run, from the reply's status code,
/// its text, and the stateful-endpoint diagnosis when there was one.
pub fn http_get_step(status: u16, status_text: &str, stateful: Option<JsonValue>) -> (r: ProbeStep)
    ensures
        http_get_step_matches(
            status,
            status_text@,
            match stateful {
                Some(d) => Some(d@),
                None => None,
            },
            r,
        ),
{
    match stateful {
        Some(d) => ProbeStep {
            name: String::from_str("http.get"),
            status: ProbeStepStatus::Passed,
            detail: Some(String::from_str(STATEFUL_GET_DETAIL)),
            data: Some(d),
        },
        None => {
            let ok = (200 <= status && status < 300) || status == 401 || status == 403;
            ProbeStep {
                name: String::from_str("http.get"),
                status: if ok {
                    ProbeStepStatus::Passed
                } else {
                    ProbeStepStatus::Error
                },
                detail: Some(crate::text::concat2("HTTP ", status_text)),
                data: None,
            }
        },
    }
}

/// The auth discovery a smoke report keeps: only one that found resource
/// metadata, an authorization server or OAuth metadata.
pub fn smoke_auth(auth: Option<AuthDiscovery>) -> (r: Option<AuthDiscovery>)
    ensures
        match auth {
            Some(a) => if a.resource_metadata_url is Some || a.authorization_server is Some
                || a.oauth_metadata_url is Some {
                r == Some(a)
            } else {
                r is None
            },
            None => r is None,
        },
{
    match auth {
        Some(a) => if a.resource_metadata_url.is_some() || a.authorization_server.is_some()
            || a.oauth_metadata_url.is_some() {
            Some(a)
        } else {
            None
        },
        None => None,
    }
}

} // verus!

verus! {

/// The step of a raw request: success passes unless a failure was
/// expected; a failure passes only when one was expected and its message
/// holds the expected text (any message when none is given), and carries
/// the message and the error's data.
pub open spec fn request_step_matches(
    name: Seq<char>,
    expect_error: bool,
    expect_match: Option<Seq<char>>,
    outcome: Option<ErrorDetails>,
    r: ProbeStep,
) -> bool {
    &&& r.name@ == name
    &&& match outcome {
        None => if expect_error {
            r.status == ProbeStepStatus::Error && opt_view(r.detail) == Some(
                "Expected request to fail but it succeeded."@,
            ) && r.data is None
        } else {
            r.status == ProbeStepStatus::Passed && r.detail is None && r.data is None
        },
        Some(e) => {
            let matches = expect_error && match expect_match {
                Some(m) => contains_seq(e.message@, m),
                None => true,
            };
            &&& r.status == (if matches {
                ProbeStepStatus::Passed
            } else {
                ProbeStepStatus::Error
            })
            &&& opt_view(r.detail) == Some(e.message@)
            &&& match r.data {
                Some(v) => e.data matches Some(d) && v@ == d@,
                None => e.data is None,
            }
        },
    }
}

/// The step that reports a raw request's outcome (`None` for success).
pub fn request_step(name: &str, expect_error: bool, expect_match: Option<&str>, outcome: Option<&ErrorDetails>) -> (r: ProbeStep)
    ensures
        request_step_matches(
            name@,
            expect_error,
            match expect_match {
                Some(m) => Some(m@),
                None => None,
            },
            match outcome {
                Some(e) => Some(*e),
                None => None,
            },
            r,
        ),
{
    match outcome {
        None => if expect_error {
            ProbeStep {
                name: String::from_str(name),
                status: ProbeStepStatus::Error,
                detail: Some(String::from_str("Expected request to fail but it succeeded.")),
                data: None,
            }
        } else {
            ProbeStep { name: String::from_str(name), status: ProbeStepStatus::Passed, detail: None, data: None }
        },
        Some(e) => {
            let matches = if expect_error {
                match expect_match {
                    Some(m) => crate::text::str_contains(e.message.as_str(), m),
                    None => true,
                }
            } else {
                false
            };
            ProbeStep {
                name: String::from_str(name),
                status: if matches {
                    ProbeStepStatus::Passed
                } else {
                    ProbeStepStatus::Error
                },
                detail: Some(e.message.clone()),
                data: error_data(e),
            }
        },
    }
}

/// A step that notes whether a piece of server information was available.
pub fn availability_step(name: &str, available: bool) -> (r: ProbeStep)
    ensures
        r.name@ == name@,
        r.status == ProbeStepStatus::Passed,
        opt_view(r.detail) == (if available {
            None
        } else {
            Some("not available"@)
        }),
        r.data is None,
{
    ProbeStep {
        name: String::from_str(name),
        status: ProbeStepStatus::Passed,
        detail: if available {
            None
        } else {
            Some(String::from_str("not available"))
        },
        data: None,
    }
}

} // verus!

verus! {

/// The detail of a completed listing.
pub open spec fn listing_detail(noun: Seq<char>, count: nat, pages: nat) -> Seq<char> {
    "discovered "@ + crate::text::decimal(count) + " "@ + noun + " across "@ + crate::text::decimal(pages)
        + " page(s)"@
}

/// The report of one catalog listing: on success a passing summary and step
/// that give the page and item counts and the names listed; on failure a
/// failing summary and step with the error's message (and data).
pub open spec fn listing_matches(
    method: Seq<char>,
    step_name: Seq<char>,
    noun: Seq<char>,
    count_key: Seq<char>,
    list_key: Seq<char>,
    outcome: Result<(nat, Seq<Seq<char>>), ErrorDetails>,
    r: (crate::report::CatalogMethodSummary, ProbeStep),
) -> bool {
    let (s, step) = r;
    &&& s.method@ == method
    &&& step.name@ == step_name
    &&& match outcome {
        Ok((pages, names)) => {
            let d = listing_detail(noun, names.len(), pages);
            &&& s.status == ProbeStepStatus::Passed && opt_view(s.detail) == Some(d)
            &&& s.page_count == Some(pages as usize) && s.item_count == Some(names.len() as usize)
            &&& step.status == ProbeStepStatus::Passed && opt_view(step.detail) == Some(d)
            &&& step.data matches Some(j) && j@ == Json::Object(
                seq![
                    ("page_count"@, crate::catalog_contract::num(pages)),
                    (count_key, crate::catalog_contract::num(names.len())),
                    (list_key, crate::catalog_contract::str_array(names)),
                ],
            )
        },
        Err(e) => {
            &&& s.status == ProbeStepStatus::Error && opt_view(s.detail) == Some(e.message@)
            &&& s.page_count is None && s.item_count is None
            &&& step.status == ProbeStepStatus::Error && opt_view(step.detail) == Some(e.message@)
            &&& match step.data {
                Some(v) => e.data matches Some(d) && v@ == d@,
                None => e.data is None,
            }
        },
    }
}

/// Report one catalog listing: `outcome` is the page count and the names
/// listed, or the listing's error.
pub fn listing_report(
    method: &str,
    step_name: &str,
    noun: &str,
    count_key: &str,
    list_key: &str,
    outcome: Result<(usize, &[String]), &ErrorDetails>,
) -> (r: (crate::report::CatalogMethodSummary, ProbeStep))
    ensures
        listing_matches(
            method@,
            step_name@,
            noun@,
            count_key@,
            list_key@,
            match outcome {
                Ok((p, names)) => Ok((p as nat, crate::text::strings_view(names@))),
                Err(e) => Err(*e),
            },
            r,
        ),
{
    match outcome {
        Ok((pages, names)) => {
            let mut d = String::from_str("discovered ");
            d.append(crate::text::fmt_usize(names.len()).as_str());
            d.append(" ");
            d.append(noun);
            d.append(" across ");
            d.append(crate::text::fmt_usize(pages).as_str());
            d.append(" page(s)");
            let mut e: Vec<(String, JsonValue)> = Vec::new();
            crate::catalog_contract::push_entry(&mut e, "page_count", Some(crate::catalog_contract::num_json(pages)));
            crate::catalog_contract::push_entry(&mut e, count_key, Some(crate::catalog_contract::num_json(names.len())));
            crate::catalog_contract::push_entry(&mut e, list_key, Some(crate::catalog_contract::str_array_json(names)));
            proof {
                assert(view_entries(e@) =~= seq![
                    ("page_count"@, crate::catalog_contract::num(pages as nat)),
                    (count_key@, crate::catalog_contract::num(names@.len())),
                    (list_key@, crate::catalog_contract::str_array(crate::text::strings_view(names@))),
                ]);
            }
            let summary = crate::report::CatalogMethodSummary {
                method: String::from_str(method),
                status: ProbeStepStatus::Passed,
                detail: Some(d.clone()),
                page_count: Some(pages),
                item_count: Some(names.len()),
            };
            let step = ProbeStep {
                name: String::from_str(step_name),
                status: ProbeStepStatus::Passed,
                detail: Some(d),
                data: Some(JsonValue::Object(e)),
            };
            (summary, step)
        },
        Err(err) => {
            let summary = crate::report::CatalogMethodSummary {
                method: String::from_str(method),
                status: ProbeStepStatus::Error,
                detail: Some(err.message.clone()),
                page_count: None,
                item_count: None,
            };
            let step = ProbeStep {
                name: String::from_str(step_name),
                status: ProbeStepStatus::Error,
                detail: Some(err.message.clone()),
                data: error_data(err),
            };
            (summary, step)
        },
    }
}

} // verus!

verus! {

/// What a stdio server wrote to stderr, and how it ended when known.
pub struct StdioSnapshot {
    pub lines: Vec<String>,
    pub exit_code: Option<i32>,
    pub signal: Option<String>,
}

/// A stderr snapshot as a JSON object with sorted keys; an absent exit code
/// or signal is left out.
pub open spec fn snapshot_json(s: StdioSnapshot) -> Json {
    Json::Object(
        crate::catalog_contract::opt_entry(
            "exit_code"@,
            match s.exit_code {
                Some(c) => Some(Json::Number(crate::text::decimal_int(c as int))),
                None => None,
            },
        ) + seq![("lines"@, crate::catalog_contract::str_array(crate::text::strings_view(s.lines@)))]
            + crate::catalog_contract::opt_entry("signal"@, crate::catalog_contract::opt_str_json(s.signal)),
    )
}

/// A stderr snapshot as a JSON document.
pub fn snapshot_value(snapshot: &StdioSnapshot) -> (r: JsonValue)
    ensures
        r@ == snapshot_json(*snapshot),
{
    proof {
        assert(view_entries(Seq::<(String, JsonValue)>::empty()) =~= Seq::<(Seq<char>, Json)>::empty());
    }
    let mut e: Vec<(String, JsonValue)> = Vec::new();
    let code = match snapshot.exit_code {
        Some(c) => Some(JsonValue::Number(crate::text::fmt_i64(c as i64))),
        None => None,
    };
    crate::catalog_contract::push_entry(&mut e, "exit_code", code);
    crate::catalog_contract::push_entry(&mut e, "lines", Some(crate::catalog_contract::str_array_json(snapshot.lines.as_slice())));
    crate::catalog_contract::push_entry(&mut e, "signal", crate::catalog_contract::opt_str_value(&snapshot.signal));
    let data = JsonValue::Object(e);
    assert(data@ == snapshot_json(*snapshot)) by {
        assert(view_entries(e@) =~= match snapshot_json(*snapshot) {
            Json::Object(es) => es,
            _ => Seq::empty(),
        });
    }
    data
}

/// The `stdio.stderr` step of a run: recorded only when the server wrote
/// something or its end is known, carrying the snapshot.
pub fn stdio_step(snapshot: &StdioSnapshot) -> (r: Option<ProbeStep>)
    ensures
        (snapshot.lines@.len() > 0 || snapshot.exit_code is Some || snapshot.signal is Some) <==> r is Some,
        r matches Some(s) ==> s.name@ == "stdio.stderr"@ && s.status == ProbeStepStatus::Passed && s.detail is None
            && (s.data matches Some(d) && d@ == snapshot_json(*snapshot)),
{
    if snapshot.lines.len() == 0 && snapshot.exit_code.is_none() && snapshot.signal.is_none() {
        return None;
    }
    Some(
        ProbeStep {
            name: String::from_str("stdio.stderr"),
            status: ProbeStepStatus::Passed,
            detail: None,
            data: Some(snapshot_value(snapshot)),
        },
    )
}

/// The step of a request whose reply is kept: it passes with the reply as
/// its data, or fails with the error's message and data.
pub fn outcome_step(name: &str, outcome: Result<Option<JsonValue>, &ErrorDetails>) -> (r: ProbeStep)
    ensures
        r.name@ == name@,
        match outcome {
            Ok(d) => r.status == ProbeStepStatus::Passed && r.detail is None && r.data == d,
            Err(e) => r.status == ProbeStepStatus::Error && opt_view(r.detail) == Some(e.message@) && match r.data {
                Some(v) => e.data matches Some(x) && v@ == x@,
                None => e.data is None,
            },
        },
{
    match outcome {
        Ok(d) => ProbeStep { name: String::from_str(name), status: ProbeStepStatus::Passed, detail: None, data: d },
        Err(e) => ProbeStep {
            name: String::from_str(name),
            status: ProbeStepStatus::Error,
            detail: Some(e.message.clone()),
            data: error_data(e),
        },
    }
}

} // verus!
