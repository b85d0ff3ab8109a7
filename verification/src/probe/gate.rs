//! The gates a probe passes before its session: the stdio and host
//! allowlists, auth discovery, the auth-required expectation, and the
//! connection, with the short cut for an expected auth refusal. Each call
//! takes what came of the last action and says what to do next; the caller
//! runs auth discovery and connects.

use vstd::prelude::*;
use crate::allowlist::{
    apply_expect_auth_required, enforce_host_allowlist, enforce_stdio_allowlist, host_check, opt_hosts, opt_str,
    prm_challenged, stdio_step_matches,
};
use crate::json::JsonValue;
use crate::probe::errors::ErrorDetails;
use crate::probe::{
    auth_discovered, auth_expectation_passed, auth_failure_message, auth_required_data, auth_required_detail,
    error_step_data, is_expected_auth_required_connect_error, map_error_step, map_expected_auth_required_connect_step,
};
use crate::report::{AuthDiscovery, ProbeStep, ProbeStepStatus};
use crate::text::opt_view;
use crate::transport::TransportType;

verus! {

/// Where the gates stand.
#[derive(Clone, Copy, PartialEq, Eq, Structural)]
pub enum GateStage {
    /// Waiting for auth discovery.
    Discover,
    /// Waiting for the connection.
    Connect,
    Done,
}

/// The state of the gates: the steps so far, what auth discovery found,
/// whether the target is expected to ask for auth, and how a refused
/// connection ends the run.
pub struct GateState {
    pub stage: GateStage,
    pub expect_auth_required: Option<bool>,
    /// A full probe (or handshake) ends with success when the connection is
    /// refused for the auth it was expected to ask for, and then reports no
    /// discovery on other failures; a raw request has no such short cut and
    /// keeps what discovery found.
    pub refusal_short_cut: bool,
    pub steps: Vec<ProbeStep>,
    pub auth: Option<AuthDiscovery>,
}

/// Why a connection failed: the error, and what a stdio server wrote.
pub struct ConnectFailure {
    pub details: ErrorDetails,
    pub stdio: Option<JsonValue>,
}

/// What came of the last action.
pub enum GateEvent {
    /// Auth discovery ran: its steps and what it found.
    Discovered { steps: Vec<ProbeStep>, auth: Option<AuthDiscovery> },
    /// The connection was made, or failed.
    Connected(Result<(), ConnectFailure>),
}

/// What the caller does next: run auth discovery, connect, go on with the
/// connected session, or end the run with the steps so far; on ending, `ok`
/// is the report's verdict and `report_auth` says whether it carries what
/// auth discovery found.
#[derive(PartialEq, Eq, Structural)]
pub enum GateAction {
    Discover,
    Connect,
    Proceed,
    Finish { ok: bool, report_auth: bool },
}

/// The host allowlist step as `host_check` decides it.
pub open spec fn host_step_matches(
    s: ProbeStep,
    transport: Seq<char>,
    url: Option<Seq<char>>,
    hosts: Option<Seq<Seq<char>>>,
    configured: bool,
) -> bool {
    let (ok, detail, data) = host_check(transport, url, hosts, configured);
    &&& s.name@ == "host.allowlist"@
    &&& s.status == (if ok { ProbeStepStatus::Passed } else { ProbeStepStatus::Error })
    &&& opt_view(s.detail) == detail
    &&& match s.data {
        Some(d) => data == Some(d@),
        None => data is None,
    }
}

/// How the gates begin: a stdio target must be allowed; then the host
/// allowlist is checked; a target that passes both goes to auth discovery.
pub open spec fn gate_begin(
    transport: TransportType,
    url: Option<Seq<char>>,
    hosts: Option<Seq<Seq<char>>>,
    configured: bool,
    stdio_allowed: bool,
    r: (GateState, GateAction),
) -> bool {
    let (n, action) = r;
    let t = crate::transport::transport_name(transport);
    let stdio = transport == TransportType::Stdio;
    let refused_stdio = stdio && !stdio_allowed;
    let stdio_steps: int = if stdio { 1 } else { 0 };
    let host_ok = host_check(t, url, hosts, configured).0;
    &&& n.auth is None
    &&& (stdio ==> stdio_step_matches(n.steps@[0], stdio_allowed))
    &&& if refused_stdio {
        &&& n.steps@.len() == 1
        &&& n.stage == GateStage::Done && action == (GateAction::Finish { ok: false, report_auth: false })
    } else {
        &&& n.steps@.len() == stdio_steps + 1
        &&& host_step_matches(n.steps@[stdio_steps], t, url, hosts, configured)
        &&& if host_ok {
            n.stage == GateStage::Discover && action == GateAction::Discover
        } else {
            n.stage == GateStage::Done && action == (GateAction::Finish { ok: false, report_auth: false })
        }
    }
}

/// The expectation step that follows auth discovery, when auth is
/// expected: it passes when discovery met a challenge.
pub open spec fn expectation_after(before: Seq<ProbeStep>, expect: Option<bool>, after: Seq<ProbeStep>) -> bool {
    if expect != Some(true) {
        after == before
    } else {
        let ok = prm_challenged(before);
        let s = after.last();
        &&& after.len() == before.len() + 1
        &&& after.drop_last() == before
        &&& s.name@ == "expect.auth_required"@
        &&& s.status == (if ok { ProbeStepStatus::Passed } else { ProbeStepStatus::Error })
        &&& opt_view(s.detail) == (if ok { None } else { Some("Expected an auth challenge but none was detected"@) })
        &&& s.data is None
    }
}

/// Whether a connection failure is the auth refusal the target was expected
/// to give.
pub open spec fn expected_refusal(s: GateState, f: ConnectFailure) -> bool {
    s.expect_auth_required == Some(true) && auth_expectation_passed(s.steps@) && auth_discovered(s.auth)
        && auth_failure_message(f.details.message@)
}

/// The transition of the gates.
pub open spec fn gate_transition(s: GateState, e: GateEvent, r: (GateState, GateAction)) -> bool {
    let (n, action) = r;
    &&& n.expect_auth_required == s.expect_auth_required
    &&& n.refusal_short_cut == s.refusal_short_cut
    &&& match (s.stage, e) {
        (GateStage::Discover, GateEvent::Discovered { steps, auth }) => {
            &&& expectation_after(s.steps@ + steps@, s.expect_auth_required, n.steps@)
            &&& n.auth == auth
            &&& n.stage == GateStage::Connect && action == GateAction::Connect
        },
        (GateStage::Connect, GateEvent::Connected(c)) => {
            let last = n.steps@.last();
            &&& n.auth == s.auth
            &&& n.steps@.len() == s.steps@.len() + 1
            &&& n.steps@.drop_last() == s.steps@
            &&& n.stage == GateStage::Done || n.stage == GateStage::Connect
            &&& match c {
                Ok(_) => {
                    &&& last.name@ == "connect"@ && last.status == ProbeStepStatus::Passed
                    &&& last.detail is None && last.data is None
                    &&& action == GateAction::Proceed
                },
                Err(f) => if s.refusal_short_cut && expected_refusal(s, f) {
                    &&& last.name@ == "connect.auth_required"@ && last.status == ProbeStepStatus::Passed
                    &&& opt_view(last.detail) == Some(auth_required_detail())
                    &&& last.data matches Some(d) && d@ == auth_required_data(f.details, f.stdio, None)
                    &&& action == (GateAction::Finish { ok: true, report_auth: true })
                } else {
                    &&& last.name@ == "connect"@ && last.status == ProbeStepStatus::Error
                    &&& opt_view(last.detail) == Some(f.details.message@)
                    &&& match last.data {
                        Some(d) => error_step_data(f.details, f.stdio, None).len() > 0 && d@ == crate::json::Json::Object(
                            error_step_data(f.details, f.stdio, None),
                        ),
                        None => error_step_data(f.details, f.stdio, None).len() == 0,
                    }
                    &&& action == (GateAction::Finish { ok: false, report_auth: !s.refusal_short_cut })
                },
            }
        },
        _ => {
            &&& n.steps@ == s.steps@
            &&& n.auth == s.auth
            &&& n.stage == GateStage::Done && action == (GateAction::Finish { ok: false, report_auth: false })
        },
    }
}

/// Begin the gates of a probe: check the stdio and host allowlists.
pub fn gate_start(
    transport: TransportType,
    url: Option<&str>,
    allowed_hosts: Option<&[String]>,
    allowlist_configured: bool,
    stdio_allowed: bool,
    expect_auth_required: Option<bool>,
    refusal_short_cut: bool,
) -> (r: (GateState, GateAction))
    ensures
        gate_begin(transport, opt_str(url), opt_hosts(allowed_hosts), allowlist_configured, stdio_allowed, r),
        r.0.expect_auth_required == expect_auth_required,
        r.0.refusal_short_cut == refusal_short_cut,
{
    proof {
        reveal_strlit("stdio");
        reveal_strlit("sse");
        reveal_strlit("streamable-http");
        assert("sse"@.len() != "stdio"@.len());
        assert("streamable-http"@.len() != "stdio"@.len());
    }
    let mut steps: Vec<ProbeStep> = Vec::new();
    let t = transport.as_str();
    let stdio_ok = enforce_stdio_allowlist(t, &mut steps, stdio_allowed);
    if !stdio_ok {
        let state = GateState { stage: GateStage::Done, expect_auth_required, refusal_short_cut, steps, auth: None };
        return (state, GateAction::Finish { ok: false, report_auth: false });
    }
    let ghost before = steps@;
    let host_ok = enforce_host_allowlist(t, url, &mut steps, allowed_hosts, allowlist_configured);
    proof {
        if transport == TransportType::Stdio {
            assert(steps@[0] == before[0]);
        }
    }
    if host_ok {
        (GateState { stage: GateStage::Discover, expect_auth_required, refusal_short_cut, steps, auth: None }, GateAction::Discover)
    } else {
        (
            GateState { stage: GateStage::Done, expect_auth_required, refusal_short_cut, steps, auth: None },
            GateAction::Finish { ok: false, report_auth: false },
        )
    }
}

/// Advance the gates by what came of the last action.
pub fn gate_step(state: GateState, event: GateEvent) -> (r: (GateState, GateAction))
    ensures
        gate_transition(state, event, r),
{
    let GateState { stage, expect_auth_required, refusal_short_cut, steps, auth } = state;
    match (stage, event) {
        (GateStage::Discover, GateEvent::Discovered { steps: found, auth: discovered }) => {
            let mut steps = steps;
            let mut found = found;
            let ghost joined = steps@ + found@;
            steps.append(&mut found);
            assert(steps@ =~= joined);
            apply_expect_auth_required(&mut steps, expect_auth_required);
            (GateState { stage: GateStage::Connect, expect_auth_required, refusal_short_cut, steps, auth: discovered }, GateAction::Connect)
        },
        (GateStage::Connect, GateEvent::Connected(c)) => {
            let ghost before = steps@;
            let mut steps = steps;
            match c {
                Ok(_) => {
                    steps.push(
                        ProbeStep { name: String::from_str("connect"), status: ProbeStepStatus::Passed, detail: None, data: None },
                    );
                    assert(steps@.drop_last() =~= before);
                    (GateState { stage: GateStage::Done, expect_auth_required, refusal_short_cut, steps, auth }, GateAction::Proceed)
                },
                Err(f) => {
                    let auth_ref: Option<&AuthDiscovery> = match &auth {
                        Some(a) => Some(a),
                        None => None,
                    };
                    let expected = refusal_short_cut && is_expected_auth_required_connect_error(
                        steps.as_slice(),
                        auth_ref,
                        f.details.message.as_str(),
                        expect_auth_required,
                    );
                    if expected {
                        steps.push(map_expected_auth_required_connect_step(&f.details, f.stdio, None));
                        assert(steps@.drop_last() =~= before);
                        (
                            GateState { stage: GateStage::Done, expect_auth_required, refusal_short_cut, steps, auth },
                            GateAction::Finish { ok: true, report_auth: true },
                        )
                    } else {
                        steps.push(map_error_step("connect", &f.details, f.stdio, None));
                        assert(steps@.drop_last() =~= before);
                        (
                            GateState { stage: GateStage::Done, expect_auth_required, refusal_short_cut, steps, auth },
                            GateAction::Finish { ok: false, report_auth: !refusal_short_cut },
                        )
                    }
                },
            }
        },
        _ => (
            GateState { stage: GateStage::Done, expect_auth_required, refusal_short_cut, steps, auth },
            GateAction::Finish { ok: false, report_auth: false },
        ),
    }
}

} // verus!
