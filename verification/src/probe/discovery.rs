//! OAuth discovery as a state machine: from a target's reply to its
//! challenge, to the protected-resource metadata, to the authorization
//! server's metadata. Each call takes what came of the last request and
//! says what to record and what to fetch next; the caller does the HTTP.

use vstd::prelude::*;
use crate::allowlist::{ensure_host_allowed, host_allowed};
use crate::auth::{extract_resource_metadata_url, resource_metadata_url};
use crate::json::{view_items, Json, JsonValue};
use crate::probe::auth_diagnostics::{
    attach_prior_attempt, body_preview, classify_request_error, classify_stateful_session_required_response,
    http_status_detail, invalid_json, invalid_json_from_body, malformed_detail, request_failure,
    session_detail, status_detail, validate_url, with_prior,
};
use crate::probe::auth_discovery::{
    advertised_registration, alias_entry, alias_probe_entry, annotate_prm_not_found, any_alias_reachable,
    fetch_not_found, is_not_found, issuer_check, prm_alias_urls, prm_alias_urls_for_target, prm_not_found,
    registration_endpoint_from_metadata, validate_issuer_alignment,
};
use crate::report::{AuthDiscovery, ProbeStep, ProbeStepStatus};
use crate::text::{opt_view, strings_view, trim, utf8_lossy};
use crate::transport::TransportType;
use crate::urls::{join_url, url_joined, url_parse};

verus! {

/// Why a request failed: a timeout, a failed connection, the HTTP client's
/// text when building the request failed, and the error's text.
pub struct FetchFailure {
    pub timed_out: bool,
    pub connect_failed: bool,
    pub request_error: Option<String>,
    pub error: String,
}

/// A reply: its status code and text, its `www-authenticate` and
/// `content-type` headers (when they are text), its body, and the body read
/// as JSON or the parser's error.
pub struct FetchedReply {
    pub status: u16,
    pub status_text: String,
    pub www_authenticate: Option<String>,
    pub content_type: Option<String>,
    pub body: Vec<u8>,
    pub json: Result<JsonValue, String>,
}

/// What came of the last request.
pub enum DiscoveryEvent {
    Failed(FetchFailure),
    Reply(FetchedReply),
}

/// What discovery waits for.
pub enum DiscoveryStage {
    /// The reply of the target itself.
    Target,
    /// The protected-resource metadata.
    PrmFetch,
    /// The answers of the PRM alias URLs, after the challenged URL gave 404:
    /// the fetch's diagnostic, the aliases and the answers so far.
    AliasProbe { detail: String, data: JsonValue, aliases: Vec<String>, results: Vec<JsonValue> },
    /// The OpenID configuration of `server`, with the OAuth metadata URL to
    /// try next.
    OidcFetch { server: String, oidc: String, oauth: String },
    /// The OAuth server metadata of `server`, after the first attempt failed.
    OauthFetch { server: String, oauth: String, first_detail: String, first_data: JsonValue },
    Done,
}

/// The state of a discovery run.
pub struct DiscoveryState {
    pub target: String,
    pub allowed_hosts: Option<Vec<String>>,
    pub auth: AuthDiscovery,
    pub stage: DiscoveryStage,
}

/// What the caller does next: fetch a URL, or stop; on stopping, `true`
/// says the run reports what it found (`state.auth`), `false` that it
/// reports no discovery at all.
pub enum DiscoveryAction {
    Get(String),
    Finish(bool),
}

// ---------------------------------------------------------------------------
// Models.
// ---------------------------------------------------------------------------

/// A step as plain values: name, status, detail, data.
pub open spec fn step_m(s: ProbeStep) -> (Seq<char>, ProbeStepStatus, Option<Seq<char>>, Option<Json>) {
    (s.name@, s.status, opt_view(s.detail), opt_json(s.data))
}

pub open spec fn steps_m(s: Seq<ProbeStep>) -> Seq<(Seq<char>, ProbeStepStatus, Option<Seq<char>>, Option<Json>)> {
    s.map_values(|x: ProbeStep| step_m(x))
}

pub open spec fn opt_json(o: Option<JsonValue>) -> Option<Json> {
    match o {
        Some(j) => Some(j@),
        None => None,
    }
}

/// Discovery results as plain values.
pub struct AuthModel {
    pub resource_metadata_url: Option<Seq<char>>,
    pub resource_metadata: Option<Json>,
    pub authorization_server: Option<Seq<char>>,
    pub oauth_metadata_url: Option<Seq<char>>,
    pub oauth_metadata: Option<Json>,
    pub registration_endpoint: Option<Seq<char>>,
}

pub open spec fn auth_m(a: AuthDiscovery) -> AuthModel {
    AuthModel {
        resource_metadata_url: opt_view(a.resource_metadata_url),
        resource_metadata: opt_json(a.resource_metadata),
        authorization_server: opt_view(a.authorization_server),
        oauth_metadata_url: opt_view(a.oauth_metadata_url),
        oauth_metadata: opt_json(a.oauth_metadata),
        registration_endpoint: opt_view(a.registration_endpoint),
    }
}

pub open spec fn empty_auth_m() -> AuthModel {
    AuthModel {
        resource_metadata_url: None,
        resource_metadata: None,
        authorization_server: None,
        oauth_metadata_url: None,
        oauth_metadata: None,
        registration_endpoint: None,
    }
}

/// A stage as plain values.
pub enum StageModel {
    Target,
    PrmFetch,
    AliasProbe { detail: Seq<char>, data: Json, aliases: Seq<Seq<char>>, results: Seq<Json> },
    OidcFetch { server: Seq<char>, oidc: Seq<char>, oauth: Seq<char> },
    OauthFetch { server: Seq<char>, oauth: Seq<char>, first_detail: Seq<char>, first_data: Json },
    Done,
}

pub open spec fn stage_m(s: DiscoveryStage) -> StageModel {
    match s {
        DiscoveryStage::Target => StageModel::Target,
        DiscoveryStage::PrmFetch => StageModel::PrmFetch,
        DiscoveryStage::AliasProbe { detail, data, aliases, results } => StageModel::AliasProbe {
            detail: detail@,
            data: data@,
            aliases: strings_view(aliases@),
            results: view_items(results@),
        },
        DiscoveryStage::OidcFetch { server, oidc, oauth } => StageModel::OidcFetch {
            server: server@,
            oidc: oidc@,
            oauth: oauth@,
        },
        DiscoveryStage::OauthFetch { server, oauth, first_detail, first_data } => StageModel::OauthFetch {
            server: server@,
            oauth: oauth@,
            first_detail: first_detail@,
            first_data: first_data@,
        },
        DiscoveryStage::Done => StageModel::Done,
    }
}

/// An action as plain values.
pub enum ActionModel {
    Get(Seq<char>),
    Finish(bool),
}

pub open spec fn action_m(a: DiscoveryAction) -> ActionModel {
    match a {
        DiscoveryAction::Get(u) => ActionModel::Get(u@),
        DiscoveryAction::Finish(b) => ActionModel::Finish(b),
    }
}

pub open spec fn hosts_m(h: Option<Vec<String>>) -> Option<Seq<Seq<char>>> {
    match h {
        Some(v) => Some(strings_view(v@)),
        None => None,
    }
}

/// What one transition yields: the discovery so far, the next stage, the
/// steps recorded and the action.
pub type Outcome = (AuthModel, StageModel, Seq<(Seq<char>, ProbeStepStatus, Option<Seq<char>>, Option<Json>)>, ActionModel);

pub open spec fn st(name: Seq<char>, ok: bool, detail: Option<Seq<char>>, data: Option<Json>) -> (
    Seq<char>,
    ProbeStepStatus,
    Option<Seq<char>>,
    Option<Json>,
) {
    (name, if ok { ProbeStepStatus::Passed } else { ProbeStepStatus::Error }, detail, data)
}

pub open spec fn stop(auth: AuthModel, steps: Seq<(Seq<char>, ProbeStepStatus, Option<Seq<char>>, Option<Json>)>, report: bool) -> Outcome {
    (auth, StageModel::Done, steps, ActionModel::Finish(report))
}

pub open spec fn fail_with(auth: AuthModel, name: Seq<char>, d: (Seq<char>, Json)) -> Outcome {
    stop(auth, seq![st(name, false, Some(d.0), Some(d.1))], true)
}

pub open spec fn refused(auth: AuthModel, name: Seq<char>, label: Seq<char>, report: bool) -> Outcome {
    stop(auth, seq![st(name, false, Some(label + " host is not in the allowlist"@), None)], report)
}

pub open spec fn with_prm_url(a: AuthModel, p: Seq<char>) -> AuthModel {
    AuthModel {
        resource_metadata_url: Some(p),
        resource_metadata: a.resource_metadata,
        authorization_server: a.authorization_server,
        oauth_metadata_url: a.oauth_metadata_url,
        oauth_metadata: a.oauth_metadata,
        registration_endpoint: a.registration_endpoint,
    }
}

pub open spec fn with_prm(a: AuthModel, v: Json) -> AuthModel {
    AuthModel {
        resource_metadata_url: a.resource_metadata_url,
        resource_metadata: Some(v),
        authorization_server: a.authorization_server,
        oauth_metadata_url: a.oauth_metadata_url,
        oauth_metadata: a.oauth_metadata,
        registration_endpoint: a.registration_endpoint,
    }
}

pub open spec fn with_server(a: AuthModel, c: Seq<char>) -> AuthModel {
    AuthModel {
        resource_metadata_url: a.resource_metadata_url,
        resource_metadata: a.resource_metadata,
        authorization_server: Some(c),
        oauth_metadata_url: a.oauth_metadata_url,
        oauth_metadata: a.oauth_metadata,
        registration_endpoint: a.registration_endpoint,
    }
}

/// The OAuth metadata from `url` recorded, with the registration endpoint
/// it advertises.
pub open spec fn with_metadata(a: AuthModel, url: Seq<char>, v: Json) -> AuthModel {
    AuthModel {
        resource_metadata_url: a.resource_metadata_url,
        resource_metadata: a.resource_metadata,
        authorization_server: a.authorization_server,
        oauth_metadata_url: Some(url),
        oauth_metadata: Some(v),
        registration_endpoint: advertised_registration(Some(v)),
    }
}

// ---------------------------------------------------------------------------
// The transition, stage by stage.
// ---------------------------------------------------------------------------

/// How discovery begins: a stdio target or one without URL has nothing to
/// discover; a malformed URL is reported with an empty discovery; a host
/// outside the allowlist stops the run without one; otherwise the target
/// is fetched.
pub open spec fn discovery_begin(
    transport: TransportType,
    url: Option<Seq<char>>,
    hosts: Option<Seq<Seq<char>>>,
) -> Outcome {
    let e = empty_auth_m();
    match url {
        Some(u) if transport != TransportType::Stdio => match url_parse(u) {
            Err(m) => fail_with(e, "auth.prm"@, malformed_detail("target"@, u, m)),
            Ok(_) => if !host_allowed(u, hosts) {
                refused(e, "auth.prm"@, "Target"@, false)
            } else {
                (e, StageModel::Target, Seq::empty(), ActionModel::Get(u))
            },
        },
        _ => stop(e, seq![st("auth.prm"@, true, Some("not applicable"@), None)], false),
    }
}

/// The JSON document a metadata fetch gives, or its diagnostic.
pub open spec fn json_outcome(endpoint: Seq<char>, url: Seq<char>, e: DiscoveryEvent) -> Result<Json, (Seq<char>, Json)> {
    match e {
        DiscoveryEvent::Failed(f) => Err(
            request_failure(endpoint, url, f.timed_out, f.connect_failed, opt_view(f.request_error), f.error@),
        ),
        DiscoveryEvent::Reply(r) => if !(200 <= r.status < 300) {
            Err(status_detail(endpoint, url, r.status))
        } else {
            match r.json {
                Ok(v) => Ok(v@),
                Err(m) => Err(
                    invalid_json(
                        endpoint,
                        url,
                        opt_view(r.content_type),
                        trim(body_preview(utf8_lossy(r.body@))),
                        m@,
                    ),
                ),
            }
        },
    }
}

/// The target's answer: a challenge leads to its protected-resource
/// metadata; a success or a stateful endpoint needs no auth; anything else
/// is unexpected.
pub open spec fn on_target(target: Seq<char>, hosts: Option<Seq<Seq<char>>>, auth: AuthModel, e: DiscoveryEvent) -> Outcome {
    match e {
        DiscoveryEvent::Failed(f) => fail_with(
            auth,
            "auth.prm"@,
            request_failure("target"@, target, f.timed_out, f.connect_failed, opt_view(f.request_error), f.error@),
        ),
        DiscoveryEvent::Reply(r) => if r.status == 401 || r.status == 403 {
            let header = match r.www_authenticate {
                Some(h) => h@,
                None => ""@,
            };
            match resource_metadata_url(header) {
                None => fail_with(
                    auth,
                    "auth.prm"@,
                    (
                        "Missing resource_metadata in WWW-Authenticate header"@,
                        Json::Object(seq![("code"@, Json::Str("resource_metadata_missing"@))]),
                    ),
                ),
                Some(prm) => match url_parse(prm) {
                    Err(m) => fail_with(auth, "auth.prm"@, malformed_detail("prm_metadata"@, prm, m)),
                    Ok(_) => if !host_allowed(prm, hosts) {
                        refused(auth, "auth.prm"@, "PRM"@, true)
                    } else {
                        (
                            with_prm_url(auth, prm),
                            StageModel::PrmFetch,
                            seq![st("auth.prm"@, true, None, None)],
                            ActionModel::Get(prm),
                        )
                    },
                },
            }
        } else if 200 <= r.status < 300 {
            stop(auth, seq![st("auth.prm"@, true, Some("no auth required"@), None)], true)
        } else if r.status == 400 {
            let payload = match r.json {
                Ok(v) => Some(v@),
                Err(_) => None,
            };
            match session_detail("target"@, target, r.status, opt_view(r.content_type), r.body@, payload) {
                Some((_, data)) => stop(
                    auth,
                    seq![
                        st(
                            "auth.prm"@,
                            true,
                            Some("no auth required; endpoint is stateful and expects a session id"@),
                            Some(data),
                        ),
                    ],
                    true,
                ),
                None => stop(auth, seq![st("auth.prm"@, false, Some("Unexpected status "@ + r.status_text@), None)], true),
            }
        } else {
            stop(auth, seq![st("auth.prm"@, false, Some("Unexpected status "@ + r.status_text@), None)], true)
        },
    }
}

/// The first string among JSON values.
pub open spec fn first_str(items: Seq<Json>) -> Option<Seq<char>>
    decreases items.len(),
{
    if items.len() == 0 {
        None
    } else {
        match items[0] {
            Json::Str(s) => Some(s),
            _ => first_str(items.drop_first()),
        }
    }
}

/// The first string of the metadata's `authorization_servers` array.
pub open spec fn first_server(metadata: Json) -> Option<Seq<char>> {
    match crate::json::json_get(metadata, "authorization_servers"@) {
        Some(Json::Array(items)) => first_str(items),
        _ => None,
    }
}

/// The authorization server as an issuer: with one trailing `/`.
pub open spec fn issuer_base(server: Seq<char>) -> Seq<char> {
    if server.len() > 0 && server.last() == '/' {
        server
    } else {
        server + "/"@
    }
}

/// Fetch the OAuth server metadata, after the first attempt failed with
/// `first`; a URL that does not parse fails without a request.
pub open spec fn try_oauth(auth: AuthModel, server: Seq<char>, oauth: Seq<char>, first: (Seq<char>, Json)) -> Outcome {
    match url_parse(oauth) {
        Err(m) => {
            let d = malformed_detail("oauth_metadata"@, oauth, m);
            fail_with(auth, "auth.oauth.fetch"@, (d.0, with_prior(d.1, first.0, first.1)))
        },
        Ok(_) => (
            auth,
            StageModel::OauthFetch { server, oauth, first_detail: first.0, first_data: first.1 },
            Seq::empty(),
            ActionModel::Get(oauth),
        ),
    }
}

/// From the authorization server to the request of its metadata: the
/// OpenID configuration first, the OAuth server metadata second.
pub open spec fn metadata_begin(auth: AuthModel, hosts: Option<Seq<Seq<char>>>) -> Outcome {
    match auth.authorization_server {
        None => fail_with(
            auth,
            "auth.oauth.fetch"@,
            (
                "No authorization server found in PRM metadata"@,
                Json::Object(seq![("code"@, Json::Str("authorization_server_missing"@))]),
            ),
        ),
        Some(server) => {
            let issuer = issuer_base(server);
            match (
                url_joined(issuer, ".well-known/openid-configuration"@),
                url_joined(issuer, ".well-known/oauth-authorization-server"@),
            ) {
                (Ok(oidc), Ok(oauth)) => if !host_allowed(oidc, hosts) || !host_allowed(oauth, hosts) {
                    refused(auth, "auth.oauth.fetch"@, "OAuth metadata"@, true)
                } else {
                    match url_parse(oidc) {
                        Err(m) => try_oauth(auth, server, oauth, malformed_detail("oauth_metadata"@, oidc, m)),
                        Ok(_) => (auth, StageModel::OidcFetch { server, oidc, oauth }, Seq::empty(), ActionModel::Get(oidc)),
                    }
                },
                _ => stop(
                    auth,
                    seq![st("auth.oauth.fetch"@, false, Some("Invalid authorization server URL"@), None)],
                    true,
                ),
            }
        },
    }
}

/// The protected-resource metadata came: record it and go on to the
/// authorization server it names.
pub open spec fn on_prm_metadata(auth: AuthModel, hosts: Option<Seq<Seq<char>>>, v: Json) -> Outcome {
    let a = with_prm(auth, v);
    let s0 = st("auth.prm.fetch"@, true, None, None);
    match first_server(v) {
        Some(c) => match url_parse(c) {
            Err(m) => {
                let d = malformed_detail("authorization_server"@, c, m);
                stop(a, seq![s0, st("auth.oauth.fetch"@, false, Some(d.0), Some(d.1))], true)
            },
            Ok(_) => if !host_allowed(c, hosts) {
                stop(a, seq![s0, st("auth.oauth.fetch"@, false, Some("Authorization server host is not in the allowlist"@), None)], true)
            } else {
                let o = metadata_begin(with_server(a, c), hosts);
                (o.0, o.1, seq![s0] + o.2, o.3)
            },
        },
        None => {
            let o = metadata_begin(a, hosts);
            (o.0, o.1, seq![s0] + o.2, o.3)
        },
    }
}

/// The PRM fetch's diagnostic, annotated with what the aliases answered.
pub open spec fn annotated(detail: Seq<char>, data: Json, prm: Seq<char>, aliases: Seq<Seq<char>>, results: Seq<Json>) -> (
    Seq<char>,
    Json,
) {
    match data {
        Json::Object(es) => {
            let (d, m) = prm_not_found(detail, es, prm, aliases, results);
            (d, Json::Object(m))
        },
        _ => (
            if any_alias_reachable(results) {
                detail + " (challenged URL appears wrong: another PRM alias is reachable)"@
            } else {
                detail
            },
            data,
        ),
    }
}

/// The protected-resource metadata fetch answered: on success go on; on a
/// 404 probe the aliases of the target's metadata URL first.
pub open spec fn on_prm(target: Seq<char>, hosts: Option<Seq<Seq<char>>>, auth: AuthModel, e: DiscoveryEvent) -> Outcome {
    let prm = match auth.resource_metadata_url {
        Some(p) => p,
        None => ""@,
    };
    match json_outcome("prm_metadata"@, prm, e) {
        Ok(v) => on_prm_metadata(auth, hosts, v),
        Err((d, j)) => if is_not_found(j) {
            match prm_alias_urls(target) {
                Some(aliases) => if aliases.len() == 0 {
                    fail_with(auth, "auth.prm.fetch"@, annotated(d, j, prm, aliases, Seq::empty()))
                } else {
                    (
                        auth,
                        StageModel::AliasProbe { detail: d, data: j, aliases, results: Seq::empty() },
                        Seq::empty(),
                        ActionModel::Get(aliases[0]),
                    )
                },
                None => fail_with(auth, "auth.prm.fetch"@, (d, j)),
            }
        } else {
            fail_with(auth, "auth.prm.fetch"@, (d, j))
        },
    }
}

/// One alias answered: record it and ask the next, or report the 404 with
/// all the answers.
pub open spec fn on_alias(
    auth: AuthModel,
    detail: Seq<char>,
    data: Json,
    aliases: Seq<Seq<char>>,
    results: Seq<Json>,
    e: DiscoveryEvent,
) -> Outcome {
    let k = results.len();
    let alias = aliases[k as int];
    let entry = match e {
        DiscoveryEvent::Failed(f) => alias_entry(alias, Err(f.error@)),
        DiscoveryEvent::Reply(r) => alias_entry(alias, Ok(r.status)),
    };
    let rs = results.push(entry);
    if rs.len() < aliases.len() {
        (
            auth,
            StageModel::AliasProbe { detail, data, aliases, results: rs },
            Seq::empty(),
            ActionModel::Get(aliases[rs.len() as int]),
        )
    } else {
        let prm = match auth.resource_metadata_url {
            Some(p) => p,
            None => ""@,
        };
        fail_with(auth, "auth.prm.fetch"@, annotated(detail, data, prm, aliases, rs))
    }
}

/// The OAuth metadata came from `url`: record it, its registration
/// endpoint, and the issuer check.
pub open spec fn on_metadata(target: Seq<char>, auth: AuthModel, server: Seq<char>, url: Seq<char>, v: Json) -> Outcome {
    let a = with_metadata(auth, url, v);
    let s0 = st("auth.oauth.fetch"@, true, None, None);
    match issuer_check(target, server, Some(v)) {
        None => stop(a, seq![s0], true),
        Some((ok, d, j)) => stop(a, seq![s0, st("auth.oauth.issuer"@, ok, Some(d), Some(j))], true),
    }
}

/// The transition of a discovery run.
pub open spec fn discovery_next(
    target: Seq<char>,
    hosts: Option<Seq<Seq<char>>>,
    auth: AuthModel,
    stage: StageModel,
    e: DiscoveryEvent,
) -> Outcome {
    match stage {
        StageModel::Target => on_target(target, hosts, auth, e),
        StageModel::PrmFetch => on_prm(target, hosts, auth, e),
        StageModel::AliasProbe { detail, data, aliases, results } => if results.len() < aliases.len() {
            on_alias(auth, detail, data, aliases, results, e)
        } else {
            stop(auth, Seq::empty(), true)
        },
        StageModel::OidcFetch { server, oidc, oauth } => match json_outcome("oauth_metadata"@, oidc, e) {
            Ok(v) => on_metadata(target, auth, server, oidc, v),
            Err(first) => try_oauth(auth, server, oauth, first),
        },
        StageModel::OauthFetch { server, oauth, first_detail, first_data } => match json_outcome(
            "oauth_metadata"@,
            oauth,
            e,
        ) {
            Ok(v) => on_metadata(target, auth, server, oauth, v),
            Err((d, j)) => fail_with(auth, "auth.oauth.fetch"@, (d, with_prior(j, first_detail, first_data))),
        },
        StageModel::Done => stop(auth, Seq::empty(), true),
    }
}

/// What a returned state, steps and action are, as plain values.
pub open spec fn outcome_of(r: (DiscoveryState, Vec<ProbeStep>, DiscoveryAction)) -> Outcome {
    (auth_m(r.0.auth), stage_m(r.0.stage), steps_m(r.1@), action_m(r.2))
}

/// A transition of the run: the target and allowlist stay, and the rest is
/// `discovery_next`.
pub open spec fn discovery_transition(
    s: DiscoveryState,
    e: DiscoveryEvent,
    r: (DiscoveryState, Vec<ProbeStep>, DiscoveryAction),
) -> bool {
    &&& r.0.target@ == s.target@
    &&& hosts_m(r.0.allowed_hosts) == hosts_m(s.allowed_hosts)
    &&& outcome_of(r) == discovery_next(s.target@, hosts_m(s.allowed_hosts), auth_m(s.auth), stage_m(s.stage), e)
}

// ---------------------------------------------------------------------------
// The executable transition.
// ---------------------------------------------------------------------------

/// The parts of a transition before they are put back into a state.
pub type Parts = (AuthDiscovery, DiscoveryStage, Vec<ProbeStep>, DiscoveryAction);

pub open spec fn parts_m(r: Parts) -> Outcome {
    (auth_m(r.0), stage_m(r.1), steps_m(r.2@), action_m(r.3))
}

fn mk(name: &str, ok: bool, detail: Option<String>, data: Option<JsonValue>) -> (r: ProbeStep)
    ensures
        step_m(r) == st(name@, ok, opt_view(detail), opt_json(data)),
{
    ProbeStep {
        name: String::from_str(name),
        status: if ok {
            ProbeStepStatus::Passed
        } else {
            ProbeStepStatus::Error
        },
        detail,
        data,
    }
}

fn one(s: ProbeStep) -> (r: Vec<ProbeStep>)
    ensures
        steps_m(r@) == seq![step_m(s)],
{
    let mut v: Vec<ProbeStep> = Vec::new();
    v.push(s);
    assert(steps_m(v@) =~= seq![step_m(s)]);
    v
}

fn two(a: ProbeStep, b: ProbeStep) -> (r: Vec<ProbeStep>)
    ensures
        steps_m(r@) == seq![step_m(a), step_m(b)],
{
    let mut v: Vec<ProbeStep> = Vec::new();
    v.push(a);
    v.push(b);
    assert(steps_m(v@) =~= seq![step_m(a), step_m(b)]);
    v
}

fn no_steps() -> (r: Vec<ProbeStep>)
    ensures
        steps_m(r@) == Seq::<(Seq<char>, ProbeStepStatus, Option<Seq<char>>, Option<Json>)>::empty(),
{
    let r: Vec<ProbeStep> = Vec::new();
    assert(steps_m(r@) =~= Seq::empty());
    r
}

fn no_items() -> (r: Vec<JsonValue>)
    ensures
        r@.len() == 0,
        view_items(r@) == Seq::<Json>::empty(),
{
    Vec::new()
}

fn empty_auth() -> (r: AuthDiscovery)
    ensures
        auth_m(r) == empty_auth_m(),
{
    AuthDiscovery {
        resource_metadata_url: None,
        resource_metadata: None,
        authorization_server: None,
        oauth_metadata_url: None,
        oauth_metadata: None,
        registration_endpoint: None,
    }
}

fn stop_exec(auth: AuthDiscovery, steps: Vec<ProbeStep>, report: bool) -> (r: Parts)
    ensures
        parts_m(r) == stop(auth_m(auth), steps_m(steps@), report),
{
    (auth, DiscoveryStage::Done, steps, DiscoveryAction::Finish(report))
}

fn fail_exec(auth: AuthDiscovery, name: &str, d: (String, JsonValue)) -> (r: Parts)
    ensures
        parts_m(r) == fail_with(auth_m(auth), name@, (d.0@, d.1@)),
{
    let (detail, data) = d;
    stop_exec(auth, one(mk(name, false, Some(detail), Some(data))), true)
}

fn refused_exec(auth: AuthDiscovery, name: &str, label: &str, report: bool) -> (r: Parts)
    ensures
        parts_m(r) == refused(auth_m(auth), name@, label@, report),
{
    let m = crate::text::concat2(label, " host is not in the allowlist");
    stop_exec(auth, one(mk(name, false, Some(m), None)), report)
}

fn host_ok(url: &str, hosts: &Option<Vec<String>>) -> (r: bool)
    ensures
        r == host_allowed(url@, hosts_m(*hosts)),
{
    let slice: Option<&[String]> = match hosts {
        Some(v) => Some(v.as_slice()),
        None => None,
    };
    ensure_host_allowed(url, slice, "Target").is_ok()
}

fn code_object(code: &str) -> (r: JsonValue)
    ensures
        r@ == Json::Object(seq![("code"@, Json::Str(code@))]),
{
    let mut e: Vec<(String, JsonValue)> = Vec::new();
    let ghost e0 = e@;
    let k = String::from_str("code");
    let v = JsonValue::String(String::from_str(code));
    assert(crate::json::view_json(v) == Json::Str(code@));
    e.push((k, v));
    proof {
        assert(e@.last().0@ == "code"@);
        assert(crate::json::view_json(e@.last().1) == Json::Str(code@));
        assert(e@.drop_last() =~= e0);
        assert(crate::json::view_entries(e0) =~= Seq::empty());
        assert(crate::json::view_entries(e@) =~= seq![("code"@, Json::Str(code@))]);
    }
    JsonValue::Object(e)
}

fn failure_detail(endpoint: &str, url: &str, f: &FetchFailure) -> (r: (String, JsonValue))
    ensures
        (r.0@, r.1@) == request_failure(
            endpoint@,
            url@,
            f.timed_out,
            f.connect_failed,
            opt_view(f.request_error),
            f.error@,
        ),
{
    let req: Option<&str> = match &f.request_error {
        Some(t) => Some(t.as_str()),
        None => None,
    };
    classify_request_error(endpoint, url, f.timed_out, f.connect_failed, req, f.error.as_str())
}

/// The JSON document a metadata fetch gives, or its diagnostic.
pub fn json_result(endpoint: &str, url: &str, e: DiscoveryEvent) -> (r: Result<JsonValue, (String, JsonValue)>)
    ensures
        match r {
            Ok(v) => json_outcome(endpoint@, url@, e) == Ok::<Json, (Seq<char>, Json)>(v@),
            Err((d, j)) => json_outcome(endpoint@, url@, e) == Err::<Json, (Seq<char>, Json)>((d@, j@)),
        },
{
    match e {
        DiscoveryEvent::Failed(f) => Err(failure_detail(endpoint, url, &f)),
        DiscoveryEvent::Reply(reply) => {
            if !(200 <= reply.status && reply.status < 300) {
                return Err(http_status_detail(endpoint, url, reply.status));
            }
            let ct: Option<&str> = match &reply.content_type {
                Some(c) => Some(c.as_str()),
                None => None,
            };
            match reply.json {
                Ok(v) => Ok(v),
                Err(m) => Err(invalid_json_from_body(endpoint, url, ct, reply.body.as_slice(), m.as_str())),
            }
        },
    }
}

/// Begin discovery for a target.
pub fn discovery_start(transport: TransportType, url: Option<&str>, allowed_hosts: Option<Vec<String>>) -> (r: (
    DiscoveryState,
    Vec<ProbeStep>,
    DiscoveryAction,
))
    ensures
        outcome_of(r) == discovery_begin(
            transport,
            match url {
                Some(u) => Some(u@),
                None => None,
            },
            hosts_m(allowed_hosts),
        ),
        hosts_m(r.0.allowed_hosts) == hosts_m(allowed_hosts),
        url matches Some(u) ==> r.0.target@ == u@,
{
    let parts = match url {
        Some(u) if transport != TransportType::Stdio => match validate_url("target", u) {
            Err(d) => fail_exec(empty_auth(), "auth.prm", d),
            Ok(_) => if !host_ok(u, &allowed_hosts) {
                refused_exec(empty_auth(), "auth.prm", "Target", false)
            } else {
                (empty_auth(), DiscoveryStage::Target, no_steps(), DiscoveryAction::Get(String::from_str(u)))
            },
        },
        _ => stop_exec(empty_auth(), one(mk("auth.prm", true, Some(String::from_str("not applicable")), None)), false),
    };
    let target = match url {
        Some(u) => String::from_str(u),
        None => String::new(),
    };
    let (auth, stage, steps, action) = parts;
    (DiscoveryState { target, allowed_hosts, auth, stage }, steps, action)
}

fn target_exec(target: &str, hosts: &Option<Vec<String>>, auth: AuthDiscovery, e: DiscoveryEvent) -> (r: Parts)
    ensures
        parts_m(r) == on_target(target@, hosts_m(*hosts), auth_m(auth), e),
{
    match e {
        DiscoveryEvent::Failed(f) => fail_exec(auth, "auth.prm", failure_detail("target", target, &f)),
        DiscoveryEvent::Reply(reply) => {
            if reply.status == 401 || reply.status == 403 {
                let header: &str = match &reply.www_authenticate {
                    Some(h) => h.as_str(),
                    None => "",
                };
                proof {
                    reveal_strlit("");
                }
                match extract_resource_metadata_url(header) {
                    None => fail_exec(
                        auth,
                        "auth.prm",
                        (
                            String::from_str("Missing resource_metadata in WWW-Authenticate header"),
                            code_object("resource_metadata_missing"),
                        ),
                    ),
                    Some(prm) => match validate_url("prm_metadata", prm.as_str()) {
                        Err(d) => fail_exec(auth, "auth.prm", d),
                        Ok(_) => if !host_ok(prm.as_str(), hosts) {
                            refused_exec(auth, "auth.prm", "PRM", true)
                        } else {
                            let get = prm.clone();
                            let mut a = auth;
                            a.resource_metadata_url = Some(prm);
                            (a, DiscoveryStage::PrmFetch, one(mk("auth.prm", true, None, None)), DiscoveryAction::Get(get))
                        },
                    },
                }
            } else if 200 <= reply.status && reply.status < 300 {
                stop_exec(auth, one(mk("auth.prm", true, Some(String::from_str("no auth required")), None)), true)
            } else if reply.status == 400 {
                let ct: Option<&str> = match &reply.content_type {
                    Some(c) => Some(c.as_str()),
                    None => None,
                };
                let payload: Option<&JsonValue> = match &reply.json {
                    Ok(v) => Some(v),
                    Err(_) => None,
                };
                match classify_stateful_session_required_response(
                    "target",
                    target,
                    reply.status,
                    ct,
                    reply.body.as_slice(),
                    payload,
                ) {
                    Some((_, data)) => stop_exec(
                        auth,
                        one(
                            mk(
                                "auth.prm",
                                true,
                                Some(String::from_str("no auth required; endpoint is stateful and expects a session id")),
                                Some(data),
                            ),
                        ),
                        true,
                    ),
                    None => {
                        let m = crate::text::concat2("Unexpected status ", reply.status_text.as_str());
                        stop_exec(auth, one(mk("auth.prm", false, Some(m), None)), true)
                    },
                }
            } else {
                let m = crate::text::concat2("Unexpected status ", reply.status_text.as_str());
                stop_exec(auth, one(mk("auth.prm", false, Some(m), None)), true)
            }
        },
    }
}

fn first_string(items: &Vec<JsonValue>) -> (r: Option<String>)
    ensures
        opt_view(r) == first_str(view_items(items@)),
{
    let ghost vi = view_items(items@);
    proof {
        crate::json::lemma_view_items(items@);
        assert(vi.subrange(0, vi.len() as int) =~= vi);
    }
    let mut i: usize = 0;
    while i < items.len()
        invariant
            i <= items@.len(),
            vi == view_items(items@),
            vi.len() == items@.len(),
            forall|k: int| 0 <= k < items@.len() ==> #[trigger] vi[k] == items@[k]@,
            first_str(vi) == first_str(vi.subrange(i as int, vi.len() as int)),
        decreases items@.len() - i,
    {
        let ghost rest = vi.subrange(i as int, vi.len() as int);
        assert(rest[0] == vi[i as int]);
        assert(vi[i as int] == items@[i as int]@);
        match items[i].as_str() {
            Some(t) => {
                return Some(String::from_str(t));
            },
            None => {},
        }
        assert(rest.drop_first() =~= vi.subrange(i + 1, vi.len() as int));
        i = i + 1;
    }
    None
}

fn issuer_exec(server: &str) -> (r: String)
    ensures
        r@ == issuer_base(server@),
{
    let cs = crate::text::chars_of(server);
    if cs.len() > 0 && cs[cs.len() - 1] == '/' {
        String::from_str(server)
    } else {
        crate::text::concat2(server, "/")
    }
}

fn try_oauth_exec(auth: AuthDiscovery, server: String, oauth: String, first: (String, JsonValue)) -> (r: Parts)
    ensures
        parts_m(r) == try_oauth(auth_m(auth), server@, oauth@, (first.0@, first.1@)),
{
    let (fd, fj) = first;
    match validate_url("oauth_metadata", oauth.as_str()) {
        Err((d, j)) => fail_exec(auth, "auth.oauth.fetch", (d, attach_prior_attempt(j, fd, fj))),
        Ok(_) => {
            let get = oauth.clone();
            (
                auth,
                DiscoveryStage::OauthFetch { server, oauth, first_detail: fd, first_data: fj },
                no_steps(),
                DiscoveryAction::Get(get),
            )
        },
    }
}

fn metadata_begin_exec(auth: AuthDiscovery, hosts: &Option<Vec<String>>) -> (r: Parts)
    ensures
        parts_m(r) == metadata_begin(auth_m(auth), hosts_m(*hosts)),
{
    let server = match &auth.authorization_server {
        None => {
            return fail_exec(
                auth,
                "auth.oauth.fetch",
                (
                    String::from_str("No authorization server found in PRM metadata"),
                    code_object("authorization_server_missing"),
                ),
            );
        },
        Some(s) => s.clone(),
    };
    let issuer = issuer_exec(server.as_str());
    let oidc = join_url(issuer.as_str(), ".well-known/openid-configuration");
    let oauth = join_url(issuer.as_str(), ".well-known/oauth-authorization-server");
    match (oidc, oauth) {
        (Ok(oidc), Ok(oauth)) => {
            if !host_ok(oidc.as_str(), hosts) || !host_ok(oauth.as_str(), hosts) {
                return refused_exec(auth, "auth.oauth.fetch", "OAuth metadata", true);
            }
            match validate_url("oauth_metadata", oidc.as_str()) {
                Err(d) => try_oauth_exec(auth, server, oauth, d),
                Ok(_) => {
                    let get = oidc.clone();
                    (auth, DiscoveryStage::OidcFetch { server, oidc, oauth }, no_steps(), DiscoveryAction::Get(get))
                },
            }
        },
        _ => stop_exec(
            auth,
            one(mk("auth.oauth.fetch", false, Some(String::from_str("Invalid authorization server URL")), None)),
            true,
        ),
    }
}

fn prepend(s: ProbeStep, r: Parts) -> (out: Parts)
    ensures
        parts_m(out) == (parts_m(r).0, parts_m(r).1, seq![step_m(s)] + parts_m(r).2, parts_m(r).3),
{
    let (a, st0, steps, act) = r;
    let mut v: Vec<ProbeStep> = Vec::new();
    v.push(s);
    let mut steps = steps;
    let ghost old_steps = steps@;
    v.append(&mut steps);
    assert(steps_m(v@) =~= seq![step_m(s)] + steps_m(old_steps));
    (a, st0, v, act)
}

fn prm_metadata_exec(auth: AuthDiscovery, hosts: &Option<Vec<String>>, v: JsonValue) -> (r: Parts)
    ensures
        parts_m(r) == on_prm_metadata(auth_m(auth), hosts_m(*hosts), v@),
{
    let server = match v.get("authorization_servers") {
        Some(JsonValue::Array(items)) => first_string(items),
        _ => None,
    };
    proof {
        match crate::json::json_get(v@, "authorization_servers"@) {
            Some(Json::Array(_)) => {},
            _ => {},
        }
    }
    assert(opt_view(server) == first_server(v@));
    let mut a = auth;
    a.resource_metadata = Some(v);
    let s0 = mk("auth.prm.fetch", true, None, None);
    match server {
        Some(c) => match validate_url("authorization_server", c.as_str()) {
            Err((d, j)) => stop_exec(a, two(s0, mk("auth.oauth.fetch", false, Some(d), Some(j))), true),
            Ok(_) => if !host_ok(c.as_str(), hosts) {
                stop_exec(
                    a,
                    two(
                        s0,
                        mk(
                            "auth.oauth.fetch",
                            false,
                            Some(String::from_str("Authorization server host is not in the allowlist")),
                            None,
                        ),
                    ),
                    true,
                )
            } else {
                a.authorization_server = Some(c);
                prepend(s0, metadata_begin_exec(a, hosts))
            },
        },
        None => prepend(s0, metadata_begin_exec(a, hosts)),
    }
}

fn annotated_exec(detail: String, data: JsonValue, prm: &str, aliases: &Vec<String>, results: Vec<JsonValue>) -> (r: (
    String,
    JsonValue,
))
    ensures
        (r.0@, r.1@) == annotated(detail@, data@, prm@, strings_view(aliases@), view_items(results@)),
{
    annotate_prm_not_found(detail, data, prm, aliases.as_slice(), results)
}

fn opt_str(o: &Option<String>) -> (r: String)
    ensures
        r@ == match o {
            Some(p) => p@,
            None => ""@,
        },
{
    proof {
        reveal_strlit("");
    }
    match o {
        Some(p) => p.clone(),
        None => String::new(),
    }
}

fn prm_exec(target: &str, hosts: &Option<Vec<String>>, auth: AuthDiscovery, e: DiscoveryEvent) -> (r: Parts)
    ensures
        parts_m(r) == on_prm(target@, hosts_m(*hosts), auth_m(auth), e),
{
    let prm = opt_str(&auth.resource_metadata_url);
    match json_result("prm_metadata", prm.as_str(), e) {
        Ok(v) => prm_metadata_exec(auth, hosts, v),
        Err((d, j)) => {
            if !fetch_not_found(&j) {
                return fail_exec(auth, "auth.prm.fetch", (d, j));
            }
            match prm_alias_urls_for_target(target) {
                None => fail_exec(auth, "auth.prm.fetch", (d, j)),
                Some(aliases) => {
                    if aliases.len() == 0 {
                        let ann = annotated_exec(d, j, prm.as_str(), &aliases, no_items());
                        fail_exec(auth, "auth.prm.fetch", ann)
                    } else {
                        let get = aliases[0].clone();
                        (
                            auth,
                            DiscoveryStage::AliasProbe { detail: d, data: j, aliases, results: no_items() },
                            no_steps(),
                            DiscoveryAction::Get(get),
                        )
                    }
                },
            }
        },
    }
}

fn alias_exec(
    auth: AuthDiscovery,
    detail: String,
    data: JsonValue,
    aliases: Vec<String>,
    results: Vec<JsonValue>,
    e: DiscoveryEvent,
) -> (r: Parts)
    requires
        results@.len() < aliases@.len(),
    ensures
        parts_m(r) == on_alias(auth_m(auth), detail@, data@, strings_view(aliases@), view_items(results@), e),
{
    proof {
        crate::json::lemma_view_items(results@);
    }
    let k = results.len();
    let entry = match &e {
        DiscoveryEvent::Failed(f) => alias_probe_entry(aliases[k].as_str(), Err(f.error.as_str())),
        DiscoveryEvent::Reply(reply) => alias_probe_entry(aliases[k].as_str(), Ok(reply.status)),
    };
    let ghost old_results = results@;
    let mut results = results;
    results.push(entry);
    assert(results@.drop_last() =~= old_results);
    assert(view_items(results@) == view_items(old_results).push(entry@));
    if results.len() < aliases.len() {
        let get = aliases[results.len()].clone();
        (auth, DiscoveryStage::AliasProbe { detail, data, aliases, results }, no_steps(), DiscoveryAction::Get(get))
    } else {
        let prm = opt_str(&auth.resource_metadata_url);
        let ann = annotated_exec(detail, data, prm.as_str(), &aliases, results);
        fail_exec(auth, "auth.prm.fetch", ann)
    }
}

fn metadata_exec(target: &str, auth: AuthDiscovery, server: &str, url: String, v: JsonValue) -> (r: Parts)
    ensures
        parts_m(r) == on_metadata(target@, auth_m(auth), server@, url@, v@),
{
    let mut a = auth;
    a.registration_endpoint = registration_endpoint_from_metadata(Some(&v));
    a.oauth_metadata_url = Some(url);
    let mut steps = one(mk("auth.oauth.fetch", true, None, None));
    let ghost before = steps@;
    validate_issuer_alignment(target, server, Some(&v), &mut steps);
    proof {
        match issuer_check(target@, server@, Some(v@)) {
            None => {},
            Some((ok, d, j)) => {
                assert(steps@ =~= before.push(steps@.last()));
                assert(steps_m(steps@) =~= steps_m(before).push(step_m(steps@.last())));
            },
        }
    }
    a.oauth_metadata = Some(v);
    stop_exec(a, steps, true)
}

/// Advance discovery by what came of its last request.
pub fn discovery_step(state: DiscoveryState, event: DiscoveryEvent) -> (r: (DiscoveryState, Vec<ProbeStep>, DiscoveryAction))
    ensures
        discovery_transition(state, event, r),
{
    let DiscoveryState { target, allowed_hosts, auth, stage } = state;
    let parts = match stage {
        DiscoveryStage::Target => target_exec(target.as_str(), &allowed_hosts, auth, event),
        DiscoveryStage::PrmFetch => prm_exec(target.as_str(), &allowed_hosts, auth, event),
        DiscoveryStage::AliasProbe { detail, data, aliases, results } => {
            proof {
                crate::json::lemma_view_items(results@);
            }
            if results.len() < aliases.len() {
                alias_exec(auth, detail, data, aliases, results, event)
            } else {
                stop_exec(auth, no_steps(), true)
            }
        },
        DiscoveryStage::OidcFetch { server, oidc, oauth } => match json_result("oauth_metadata", oidc.as_str(), event) {
            Ok(v) => metadata_exec(target.as_str(), auth, server.as_str(), oidc, v),
            Err(first) => try_oauth_exec(auth, server, oauth, first),
        },
        DiscoveryStage::OauthFetch { server, oauth, first_detail, first_data } => match json_result(
            "oauth_metadata",
            oauth.as_str(),
            event,
        ) {
            Ok(v) => metadata_exec(target.as_str(), auth, server.as_str(), oauth, v),
            Err((d, j)) => fail_exec(auth, "auth.oauth.fetch", (d, attach_prior_attempt(j, first_detail, first_data))),
        },
        DiscoveryStage::Done => {
            stop_exec(auth, no_steps(), true)
        },
    };
    let (auth, stage, steps, action) = parts;
    (DiscoveryState { target, allowed_hosts, auth, stage }, steps, action)
}

} // verus!
