//! Scripted probe scenarios: their shape, validation before connecting, and
//! the small decisions the runner makes for each step.

use vstd::prelude::*;
use crate::json::JsonValue;
use crate::logging::{LogFormat, LogLevel};
use crate::text::{decimal, fmt_usize, opt_view};
use crate::transport::TransportType;
use crate::paths::{join_path, parent_path, path_join, path_parent};

pub mod allowlist;
pub mod auth;
pub mod compare;
pub mod timing;

verus! {

/// Default per-step timeout in milliseconds.
pub const DEFAULT_TIMEOUT_MS: u64 = 10_000;

/// Default retry count for transient failures.
pub const DEFAULT_RETRIES: u32 = 0;

/// Default delay between retries in milliseconds.
pub const DEFAULT_RETRY_DELAY_MS: u64 = 250;

/// Expected-error assertion of a step: a flag, or a text the error must hold.
pub enum ScenarioExpectError {
    Bool(bool),
    String(String),
}

/// Snapshot assertion of a step: a flag, or an explicit snapshot key.
pub enum ScenarioSnapshot {
    Bool(bool),
    String(String),
}

/// One tool call of a scripted scenario.
pub struct ScriptStep {
    pub id: Option<String>,
    pub name: Option<String>,
    pub tool: String,
    pub input: Option<JsonValue>,
    pub expect: Option<JsonValue>,
    pub expect_error: Option<ScenarioExpectError>,
    pub snapshot: Option<ScenarioSnapshot>,
    pub ignore_paths: Option<Vec<String>>,
}

/// A scripted scenario: how to reach the server and which steps to run.
pub struct ScriptScenario {
    pub name: Option<String>,
    pub description: Option<String>,
    pub transport: TransportType,
    pub command: Option<String>,
    pub args: Option<Vec<String>>,
    pub cwd: Option<String>,
    pub env: Option<Vec<(String, String)>>,
    pub url: Option<String>,
    pub headers: Option<Vec<(String, String)>>,
    pub timeout_ms: Option<u64>,
    pub retries: Option<u32>,
    pub retry_delay_ms: Option<u64>,
    pub log_level: Option<LogLevel>,
    pub log_format: Option<LogFormat>,
    pub use_auth: Option<bool>,
    pub access_token: Option<String>,
    pub access_token_path: Option<String>,
    pub refresh_token: Option<String>,
    pub refresh_token_path: Option<String>,
    pub client_id: Option<String>,
    pub client_secret: Option<String>,
    pub token_endpoint: Option<String>,
    pub scope: Option<String>,
    pub steps: Vec<ScriptStep>,
    pub snapshot_path: Option<String>,
    pub ignore_paths: Option<Vec<String>>,
}

/// Scenario identity recorded in reports.
pub struct ScriptScenarioSummary {
    pub name: Option<String>,
    pub description: Option<String>,
    pub path: Option<String>,
    pub snapshot_path: Option<String>,
}

/// The key of a step: its id, else its name, else `<tool>-<index + 1>`.
pub open spec fn step_key(step: ScriptStep, index: int) -> Seq<char> {
    match step.id {
        Some(id) => id@,
        None => match step.name {
            Some(n) => n@,
            None => step.tool@ + "-"@ + decimal((index + 1) as nat),
        },
    }
}

/// Resolve a stable step key from id/name/tool fields.
pub fn resolve_step_key(step: &ScriptStep, index: usize) -> (r: String)
    requires
        index < usize::MAX,
    ensures
        r@ == step_key(*step, index as int),
{
    match &step.id {
        Some(id) => id.clone(),
        None => match &step.name {
            Some(n) => n.clone(),
            None => {
                let mut key = step.tool.clone();
                key.append("-");
                key.append(fmt_usize(index + 1).as_str());
                key
            },
        },
    }
}

/// A step asserts something: an expected value, an expected error, or a
/// snapshot (a `false` flag asserts nothing).
pub open spec fn has_assertion(step: ScriptStep) -> bool {
    step.expect is Some || match step.expect_error {
        Some(ScenarioExpectError::Bool(b)) => b,
        Some(ScenarioExpectError::String(_)) => true,
        None => false,
    } || match step.snapshot {
        Some(ScenarioSnapshot::Bool(b)) => b,
        Some(ScenarioSnapshot::String(_)) => true,
        None => false,
    }
}

/// Whether a step asserts something.
pub fn step_has_assertion(step: &ScriptStep) -> (r: bool)
    ensures
        r == has_assertion(*step),
{
    let e = match &step.expect_error {
        Some(ScenarioExpectError::Bool(b)) => *b,
        Some(ScenarioExpectError::String(_)) => true,
        None => false,
    };
    let s = match &step.snapshot {
        Some(ScenarioSnapshot::Bool(b)) => *b,
        Some(ScenarioSnapshot::String(_)) => true,
        None => false,
    };
    step.expect.is_some() || e || s
}

/// The first step, from position `i` on, that asserts nothing.
pub open spec fn first_unasserted_from(steps: Seq<ScriptStep>, i: int) -> Option<int>
    decreases steps.len() - i,
{
    if i < 0 || i >= steps.len() {
        None
    } else if !has_assertion(steps[i]) {
        Some(i)
    } else {
        first_unasserted_from(steps, i + 1)
    }
}

/// The message for a step that asserts nothing.
pub open spec fn unasserted_step_message(key: Seq<char>) -> Seq<char> {
    "Scenario step \""@ + key
        + "\" must include expect, expect_error=true, expect_error=<matcher>, snapshot=true, or snapshot=<key>. Use probe_call_tool for an execution-only tool call."@
}

/// The outcome of validating a scenario: the error message, if any.
pub open spec fn scenario_error(s: ScriptScenario) -> Option<Seq<char>> {
    if s.steps@.len() == 0 {
        Some("Scenario must include at least one step."@)
    } else if first_unasserted_from(s.steps@, 0) is Some {
        let i = first_unasserted_from(s.steps@, 0)->0;
        Some(unasserted_step_message(step_key(s.steps@[i], i)))
    } else if s.transport == TransportType::Stdio && s.command is None {
        Some("Scenario missing command for stdio transport."@)
    } else if s.transport != TransportType::Stdio && s.url is None {
        Some("Scenario missing URL for HTTP transport."@)
    } else {
        None
    }
}

proof fn lemma_first_unasserted_bounds(steps: Seq<ScriptStep>, i: int)
    ensures
        first_unasserted_from(steps, i) matches Some(k) ==> (i <= k < steps.len() && !has_assertion(
            steps[k],
        )),
    decreases steps.len() - i,
{
    if 0 <= i < steps.len() && has_assertion(steps[i]) {
        lemma_first_unasserted_bounds(steps, i + 1);
    }
}

/// Validate a scenario configuration for required fields, before any
/// connection is made.
pub fn validate_scenario(scenario: &ScriptScenario) -> (r: Result<(), String>)
    ensures
        match r {
            Ok(()) => scenario_error(*scenario) is None,
            Err(m) => scenario_error(*scenario) == Some(m@),
        },
{
    if scenario.steps.len() == 0 {
        return Err(String::from_str("Scenario must include at least one step."));
    }
    let mut i: usize = 0;
    while i < scenario.steps.len()
        invariant
            i <= scenario.steps@.len(),
            first_unasserted_from(scenario.steps@, 0) == first_unasserted_from(
                scenario.steps@,
                i as int,
            ),
        decreases scenario.steps@.len() - i,
    {
        if !step_has_assertion(&scenario.steps[i]) {
            let key = resolve_step_key(&scenario.steps[i], i);
            let mut m = String::from_str("Scenario step \"");
            m.append(key.as_str());
            m.append(
                "\" must include expect, expect_error=true, expect_error=<matcher>, snapshot=true, or snapshot=<key>. Use probe_call_tool for an execution-only tool call.",
            );
            return Err(m);
        }
        i = i + 1;
    }
    match scenario.transport {
        TransportType::Stdio => {
            if scenario.command.is_none() {
                return Err(String::from_str("Scenario missing command for stdio transport."));
            }
        },
        _ => {
            if scenario.url.is_none() {
                return Err(String::from_str("Scenario missing URL for HTTP transport."));
            }
        },
    }
    Ok(())
}

/// Some step of the scenario takes part in snapshots.
pub open spec fn any_snapshot(steps: Seq<ScriptStep>) -> bool {
    exists|i: int| 0 <= i < steps.len() && (#[trigger] steps[i]).snapshot is Some
}

/// Return true if any step uses snapshots.
pub fn uses_snapshots(scenario: &ScriptScenario) -> (r: bool)
    ensures
        r == any_snapshot(scenario.steps@),
{
    let mut i: usize = 0;
    while i < scenario.steps.len()
        invariant
            i <= scenario.steps@.len(),
            forall|j: int| 0 <= j < i ==> (#[trigger] scenario.steps@[j]).snapshot is None,
        decreases scenario.steps@.len() - i,
    {
        if scenario.steps[i].snapshot.is_some() {
            return true;
        }
        i = i + 1;
    }
    false
}

/// A path taken relative to the directory of `scenario_path`: its parent,
/// or `.` when it has none, joined with `snapshot`.
pub open spec fn path_beside(scenario_path: Seq<char>, snapshot: Seq<char>) -> Seq<char> {
    let base = match path_parent(scenario_path) {
        Some(b) => b,
        None => "."@,
    };
    path_join(base, snapshot)
}

fn join_beside(scenario_path: &str, snapshot: &str) -> (r: String)
    ensures
        r@ == path_beside(scenario_path@, snapshot@),
{
    let base = match parent_path(scenario_path) {
        Some(b) => b,
        None => String::from_str("."),
    };
    join_path(base.as_str(), snapshot)
}

/// Where a scenario keeps its snapshots.
pub open spec fn snapshot_path_of(s: ScriptScenario, scenario_path: Option<Seq<char>>) -> Option<
    Seq<char>,
> {
    match s.snapshot_path {
        Some(p) => match scenario_path {
            Some(sp) => Some(path_beside(sp, p@)),
            None => Some(p@),
        },
        None => match scenario_path {
            Some(sp) => Some(sp + ".snapshots.json"@),
            None => None,
        },
    }
}

/// Resolve the snapshot path for a scenario: an explicit snapshot path is
/// taken relative to the scenario file; otherwise the scenario file name
/// with `.snapshots.json` appended.
pub fn resolve_snapshot_path(scenario: &ScriptScenario, scenario_path: Option<&str>) -> (r: Option<
    String,
>)
    ensures
        opt_view(r) == snapshot_path_of(
            *scenario,
            match scenario_path {
                Some(p) => Some(p@),
                None => None,
            },
        ),
{
    match &scenario.snapshot_path {
        Some(snapshot_path) => match scenario_path {
            Some(sp) => Some(join_beside(sp, snapshot_path.as_str())),
            None => Some(snapshot_path.clone()),
        },
        None => match scenario_path {
            Some(sp) => {
                let mut r = String::from_str(sp);
                r.append(".snapshots.json");
                Some(r)
            },
            None => None,
        },
    }
}

/// Build a scenario summary for reports.
pub fn build_scenario_summary(
    scenario: &ScriptScenario,
    scenario_path: Option<&str>,
    snapshot_path: Option<&str>,
) -> (r: ScriptScenarioSummary)
    ensures
        opt_view(r.name) == opt_view(scenario.name),
        opt_view(r.description) == opt_view(scenario.description),
        opt_view(r.path) == match scenario_path {
            Some(p) => Some(p@),
            None => None,
        },
        opt_view(r.snapshot_path) == match snapshot_path {
            Some(p) => Some(p@),
            None => None,
        },
{
    ScriptScenarioSummary {
        name: crate::text::clone_opt_string(&scenario.name),
        description: crate::text::clone_opt_string(&scenario.description),
        path: match scenario_path {
            Some(p) => Some(String::from_str(p)),
            None => None,
        },
        snapshot_path: match snapshot_path {
            Some(p) => Some(String::from_str(p)),
            None => None,
        },
    }
}

/// Resolve timing options for scripted scenarios, filling in the defaults.
pub fn resolve_scenario_timing(
    timeout_ms: Option<u64>,
    retries: Option<u32>,
    retry_delay_ms: Option<u64>,
) -> (r: (u64, u32, u64))
    ensures
        r.0 == (match timeout_ms {
            Some(t) => t,
            None => DEFAULT_TIMEOUT_MS,
        }),
        r.1 == (match retries {
            Some(n) => n,
            None => DEFAULT_RETRIES,
        }),
        r.2 == (match retry_delay_ms {
            Some(d) => d,
            None => DEFAULT_RETRY_DELAY_MS,
        }),
{
    (
        match timeout_ms {
            Some(t) => t,
            None => DEFAULT_TIMEOUT_MS,
        },
        match retries {
            Some(n) => n,
            None => DEFAULT_RETRIES,
        },
        match retry_delay_ms {
            Some(d) => d,
            None => DEFAULT_RETRY_DELAY_MS,
        },
    )
}

/// What a step's expected-error assertion asks: whether an error is
/// expected, and the text it must hold.
pub open spec fn expect_error_of(e: Option<ScenarioExpectError>) -> (bool, Option<Seq<char>>) {
    match e {
        None => (false, None),
        Some(ScenarioExpectError::Bool(b)) => (b, None),
        Some(ScenarioExpectError::String(v)) => (true, Some(v@)),
    }
}

/// Whether a step expects an error, and the text the error must hold.
pub fn resolve_expect_error(expect_error: &Option<ScenarioExpectError>) -> (r: (bool, Option<&str>))
    ensures
        (r.0, match r.1 {
            Some(s) => Some(s@),
            None => None,
        }) == expect_error_of(*expect_error),
{
    match expect_error {
        None => (false, None),
        Some(ScenarioExpectError::Bool(b)) => (*b, None),
        Some(ScenarioExpectError::String(v)) => (true, Some(v.as_str())),
    }
}

/// The snapshot key of a step: the step key for `true`, the explicit key for
/// a string, and none for `false` or no snapshot.
pub open spec fn snapshot_key_of(snapshot: Option<ScenarioSnapshot>, key: Seq<char>) -> Option<
    Seq<char>,
> {
    match snapshot {
        None => None,
        Some(ScenarioSnapshot::Bool(true)) => Some(key),
        Some(ScenarioSnapshot::Bool(false)) => None,
        Some(ScenarioSnapshot::String(v)) => Some(v@),
    }
}

/// The snapshot key of a step.
pub fn snapshot_key(step: &ScriptStep, step_key: &str) -> (r: Option<String>)
    ensures
        opt_view(r) == snapshot_key_of(step.snapshot, step_key@),
{
    match &step.snapshot {
        None => None,
        Some(ScenarioSnapshot::Bool(true)) => Some(String::from_str(step_key)),
        Some(ScenarioSnapshot::Bool(false)) => None,
        Some(ScenarioSnapshot::String(v)) => Some(v.clone()),
    }
}


/// The detail of a tool call that reported `isError`, with the payload's
/// compact JSON when there is one.
pub open spec fn tool_error_detail(actual: Option<crate::json::Json>) -> Seq<char> {
    match actual {
        Some(v) => "Tool returned isError=true: "@ + crate::json::json_text(v),
        None => "Tool returned isError=true"@,
    }
}

/// Describe a tool call that reported `isError`.
pub fn format_tool_is_error_detail(actual: Option<&JsonValue>) -> (r: String)
    ensures
        r@ == tool_error_detail(
            match actual {
                Some(v) => Some(v@),
                None => None,
            },
        ),
{
    match actual {
        Some(v) => {
            let mut detail = String::from_str("Tool returned isError=true: ");
            detail.append(v.to_json_text().as_str());
            detail
        },
        None => String::from_str("Tool returned isError=true"),
    }
}

/// A step's value with the ignored paths redacted.
pub fn normalize_value(value: &JsonValue, ignore_paths: &[String]) -> (r: JsonValue)
    ensures
        r@ == compare::redacted(value@, crate::text::strings_view(ignore_paths@)),
{
    compare::apply_redactions(value.deep_clone(), ignore_paths)
}

/// The differences between a snapshot and a step's value that no ignore
/// pattern covers, with their report.
pub fn build_diff(expected: &JsonValue, actual: &JsonValue, ignore_paths: &[String]) -> (r: (
    Vec<compare::DiffEntry>,
    Option<String>,
))
    ensures
        compare::diffs_view(r.0@) == compare::filtered(
            compare::diff(expected@, actual@, Seq::empty()),
            crate::text::strings_view(ignore_paths@),
        ),
        opt_view(r.1) == compare::diff_report(compare::diffs_view(r.0@)),
{
    let diffs = compare::filter_diff_entries(compare::diff_objects(expected, actual), ignore_paths);
    let detail = compare::format_diff(diffs.as_slice());
    (diffs, detail)
}

} // verus!

verus! {

/// What checking one scripted tool call decided.
pub struct StepVerdict {
    pub status: crate::report::ProbeStepStatus,
    pub detail: Option<String>,
    /// The expected value, with the ignored paths redacted.
    pub expected: Option<JsonValue>,
    /// The tool's result, with the ignored paths redacted.
    pub actual: Option<JsonValue>,
    pub diff: Vec<compare::DiffEntry>,
    pub diff_text: Option<String>,
    /// The value to store as the step's snapshot, when one is written.
    pub snapshot_store: Option<JsonValue>,
    /// The call's failure, as reported.
    pub error: Option<String>,
}

/// The inputs of a step check as plain values.
pub struct StepCheck {
    pub call_error: Option<Seq<char>>,
    pub actual: Option<crate::json::Json>,
    pub expect: Option<crate::json::Json>,
    pub snapshot_key: Option<Seq<char>>,
    pub stored: Option<crate::json::Json>,
    pub snapshot_write: bool,
    pub expect_error: bool,
    pub expect_match: Option<Seq<char>>,
    pub ignore: Seq<Seq<char>>,
}

/// The expected value of a step and whether the snapshot is written, with
/// the call error as amended: the step's own expectation; else its stored
/// snapshot; else, when writing snapshots, the (redacted) result, which is
/// stored; else the call fails for the missing snapshot.
pub open spec fn expected_of(c: StepCheck) -> (Option<crate::json::Json>, Option<crate::json::Json>, Option<Seq<char>>) {
    let actual = match c.actual {
        Some(a) => Some(compare::redacted(a, c.ignore)),
        None => None,
    };
    if c.expect is Some {
        (c.expect, None, c.call_error)
    } else {
        match c.snapshot_key {
            None => (None, None, c.call_error),
            Some(k) => match c.stored {
                Some(s) => (Some(s), None, c.call_error),
                None => if c.snapshot_write {
                    (
                        actual,
                        Some(
                            match actual {
                                Some(a) => a,
                                None => crate::json::Json::Null,
                            },
                        ),
                        c.call_error,
                    )
                } else {
                    (
                        None,
                        None,
                        match c.call_error {
                            Some(e) => Some(e),
                            None => Some("Missing snapshot for "@ + k),
                        },
                    )
                },
            },
        }
    }
}

/// The verdict on a step: an expected failure must happen (and hold the
/// expected text); any other failure fails the step; else the redacted
/// expected and actual values must not differ (when writing snapshots a
/// difference rewrites the snapshot instead); with nothing to compare the
/// step passes with a note.
pub open spec fn verdict_matches(c: StepCheck, r: StepVerdict) -> bool {
    let (expect0, store0, err) = expected_of(c);
    let expected = match expect0 {
        Some(e) => Some(compare::redacted(e, c.ignore)),
        None => None,
    };
    let actual = match c.actual {
        Some(a) => Some(compare::redacted(a, c.ignore)),
        None => None,
    };
    &&& (match r.expected {
        Some(e) => expected == Some(e@),
        None => expected is None,
    })
    &&& (match r.actual {
        Some(a) => actual == Some(a@),
        None => actual is None,
    })
    &&& opt_view(r.error) == err
    &&& if c.expect_error {
        &&& r.diff@.len() == 0 && r.diff_text is None
        &&& (match r.snapshot_store {
            Some(s) => store0 == Some(s@),
            None => store0 is None,
        })
        &&& match err {
            None => r.status == crate::report::ProbeStepStatus::Error && opt_view(r.detail) == Some(
                "Expected tool call to fail but it succeeded"@,
            ),
            Some(e) => match c.expect_match {
                Some(m) => if crate::text::contains_seq(e, m) {
                    r.status == crate::report::ProbeStepStatus::Passed && r.detail is None
                } else {
                    r.status == crate::report::ProbeStepStatus::Error && opt_view(r.detail) == Some(
                        "Expected error containing \""@ + m + "\""@,
                    )
                },
                None => r.status == crate::report::ProbeStepStatus::Passed && r.detail is None,
            },
        }
    } else if err is Some {
        &&& r.diff@.len() == 0 && r.diff_text is None
        &&& (match r.snapshot_store {
            Some(s) => store0 == Some(s@),
            None => store0 is None,
        })
        &&& r.status == crate::report::ProbeStepStatus::Error && opt_view(r.detail) == err
    } else if expected is Some && actual is Some {
        let ds = compare::filtered(compare::diff(expected->0, actual->0, Seq::empty()), c.ignore);
        &&& compare::diffs_view(r.diff@) == ds
        &&& opt_view(r.diff_text) == compare::diff_report(ds)
        &&& if ds.len() == 0 {
            &&& r.status == crate::report::ProbeStepStatus::Passed && r.detail is None
            &&& (match r.snapshot_store {
                Some(s) => store0 == Some(s@),
                None => store0 is None,
            })
        } else if c.snapshot_write && c.snapshot_key is Some {
            &&& r.status == crate::report::ProbeStepStatus::Passed
            &&& opt_view(r.detail) == Some("Snapshot updated"@)
            &&& r.snapshot_store matches Some(s) && s@ == actual->0
        } else {
            &&& r.status == crate::report::ProbeStepStatus::Error
            &&& opt_view(r.detail) == compare::diff_report(ds)
            &&& (match r.snapshot_store {
                Some(s) => store0 == Some(s@),
                None => store0 is None,
            })
        }
    } else {
        &&& r.diff@.len() == 0 && r.diff_text is None
        &&& (match r.snapshot_store {
            Some(s) => store0 == Some(s@),
            None => store0 is None,
        })
        &&& r.status == crate::report::ProbeStepStatus::Passed
        &&& opt_view(r.detail) == Some("No assertion provided"@)
    }
}

fn clone_opt_json(o: &Option<JsonValue>) -> (r: Option<JsonValue>)
    ensures
        crate::auth::opt_json(r) == crate::auth::opt_json(*o),
{
    match o {
        Some(v) => Some(v.deep_clone()),
        None => None,
    }
}

/// Check one scripted tool call: `call_error` is its failure (or the
/// `isError` detail), `actual` its result, `expect` the step's expectation,
/// `stored` the snapshot stored under `snapshot_key`.
pub fn evaluate_step(
    call_error: Option<String>,
    actual: Option<&JsonValue>,
    expect: Option<&JsonValue>,
    snapshot_key: Option<&str>,
    stored: Option<&JsonValue>,
    snapshot_write: bool,
    expect_error: bool,
    expect_match: Option<&str>,
    ignore_paths: &[String],
) -> (r: StepVerdict)
    ensures
        verdict_matches(
            StepCheck {
                call_error: opt_view(call_error),
                actual: match actual {
                    Some(a) => Some(a@),
                    None => None,
                },
                expect: match expect {
                    Some(e) => Some(e@),
                    None => None,
                },
                snapshot_key: match snapshot_key {
                    Some(k) => Some(k@),
                    None => None,
                },
                stored: match stored {
                    Some(s) => Some(s@),
                    None => None,
                },
                snapshot_write,
                expect_error,
                expect_match: match expect_match {
                    Some(m) => Some(m@),
                    None => None,
                },
                ignore: crate::text::strings_view(ignore_paths@),
            },
            r,
        ),
{
    let actual_r: Option<JsonValue> = match actual {
        Some(a) => Some(normalize_value(a, ignore_paths)),
        None => None,
    };
    let mut err = call_error;
    let mut store: Option<JsonValue> = None;
    let expected0: Option<JsonValue> = match expect {
        Some(e) => Some(e.deep_clone()),
        None => match snapshot_key {
            None => None,
            Some(k) => match stored {
                Some(s) => Some(s.deep_clone()),
                None => if snapshot_write {
                    store = Some(
                        match &actual_r {
                            Some(a) => a.deep_clone(),
                            None => JsonValue::Null,
                        },
                    );
                    clone_opt_json(&actual_r)
                } else {
                    if err.is_none() {
                        err = Some(crate::text::concat2("Missing snapshot for ", k));
                    }
                    None
                },
            },
        },
    };
    let expected_r: Option<JsonValue> = match &expected0 {
        Some(e) => Some(normalize_value(e, ignore_paths)),
        None => None,
    };
    let mut diff: Vec<compare::DiffEntry> = Vec::new();
    let mut diff_text: Option<String> = None;
    let status;
    let detail: Option<String>;
    if expect_error {
        match &err {
            None => {
                status = crate::report::ProbeStepStatus::Error;
                detail = Some(String::from_str("Expected tool call to fail but it succeeded"));
            },
            Some(e) => match expect_match {
                Some(m) => if crate::text::str_contains(e.as_str(), m) {
                    status = crate::report::ProbeStepStatus::Passed;
                    detail = None;
                } else {
                    status = crate::report::ProbeStepStatus::Error;
                    detail = Some(crate::text::concat3("Expected error containing \"", m, "\""));
                },
                None => {
                    status = crate::report::ProbeStepStatus::Passed;
                    detail = None;
                },
            },
        }
    } else if err.is_some() {
        status = crate::report::ProbeStepStatus::Error;
        detail = crate::text::clone_opt_string(&err);
    } else {
        match (&expected_r, &actual_r) {
            (Some(e), Some(a)) => {
                let (ds, text) = build_diff(e, a, ignore_paths);
                if ds.len() == 0 {
                    status = crate::report::ProbeStepStatus::Passed;
                    detail = None;
                } else if snapshot_write && snapshot_key.is_some() {
                    store = Some(a.deep_clone());
                    status = crate::report::ProbeStepStatus::Passed;
                    detail = Some(String::from_str("Snapshot updated"));
                } else {
                    status = crate::report::ProbeStepStatus::Error;
                    detail = crate::text::clone_opt_string(&text);
                }
                diff = ds;
                diff_text = text;
            },
            _ => {
                status = crate::report::ProbeStepStatus::Passed;
                detail = Some(String::from_str("No assertion provided"));
            },
        }
    }
    StepVerdict { status, detail, expected: expected_r, actual: actual_r, diff, diff_text, snapshot_store: store, error: err }
}

} // verus!

verus! {

/// Writing snapshots makes a step pass, and the snapshot it writes is
/// matched on the next run: the same result, checked against the stored
/// snapshot with snapshot writing off, passes with no differences.
pub proof fn lemma_written_snapshot_matches(c: StepCheck, first: StepVerdict, rerun: StepVerdict)
    requires
        c.call_error is None,
        !c.expect_error,
        c.expect is None,
        c.snapshot_key is Some,
        c.stored is None,
        c.snapshot_write,
        c.actual is Some,
        verdict_matches(c, first),
        verdict_matches(StepCheck { stored: expected_of(c).1, snapshot_write: false, ..c }, rerun),
    ensures
        expected_of(c).1 == Some(compare::redacted(c.actual->0, c.ignore)),
        first.status == crate::report::ProbeStepStatus::Passed,
        first.diff@.len() == 0,
        rerun.status == crate::report::ProbeStepStatus::Passed,
        rerun.diff@.len() == 0,
{
    let a = c.actual->0;
    compare::lemma_redaction_idempotent(a, c.ignore);
    let s = compare::redacted(a, c.ignore);
    assert(compare::diff(s, s, Seq::empty()) =~= Seq::<compare::DiffM>::empty());
    assert(compare::filtered(Seq::<compare::DiffM>::empty(), c.ignore).len() == 0);
}

// ---------------------------------------------------------------------------
// The report step of one scripted tool call.
// ---------------------------------------------------------------------------

/// A difference as a JSON object (keys in sorted order).
pub open spec fn diff_json(d: compare::DiffEntry) -> crate::json::Json {
    crate::json::Json::Object(
        seq![("actual"@, d.actual@), ("expected"@, d.expected@)] + crate::catalog_contract::opt_entry(
            "kind"@,
            match d.kind {
                Some(compare::DiffKind::MissingExpected) => Some(crate::json::Json::Str("missing-expected"@)),
                Some(compare::DiffKind::MissingActual) => Some(crate::json::Json::Str("missing-actual"@)),
                None => None,
            },
        ) + seq![("path"@, crate::json::Json::Str(d.path@))],
    )
}

fn diff_value(d: &compare::DiffEntry) -> (r: JsonValue)
    ensures
        r@ == diff_json(*d),
{
    let mut e: Vec<(String, JsonValue)> = Vec::new();
    proof {
        assert(crate::json::view_entries(e@) =~= Seq::empty());
    }
    crate::catalog_contract::push_entry(&mut e, "actual", Some(d.actual.deep_clone()));
    crate::catalog_contract::push_entry(&mut e, "expected", Some(d.expected.deep_clone()));
    let kind = match &d.kind {
        Some(compare::DiffKind::MissingExpected) => Some(crate::catalog_contract::str_json("missing-expected")),
        Some(compare::DiffKind::MissingActual) => Some(crate::catalog_contract::str_json("missing-actual")),
        None => None,
    };
    crate::catalog_contract::push_entry(&mut e, "kind", kind);
    crate::catalog_contract::push_entry(&mut e, "path", Some(crate::catalog_contract::str_json(d.path.as_str())));
    proof {
        assert(crate::json::view_entries(e@) =~= match diff_json(*d) {
            crate::json::Json::Object(es) => es,
            _ => Seq::empty(),
        });
    }
    JsonValue::Object(e)
}

fn diffs_value(diff: &Vec<compare::DiffEntry>) -> (r: JsonValue)
    ensures
        r@ == crate::json::Json::Array(diff@.map_values(|d: compare::DiffEntry| diff_json(d))),
{
    let mut out: Vec<JsonValue> = Vec::new();
    let mut i: usize = 0;
    while i < diff.len()
        invariant
            i <= diff@.len(),
            crate::json::view_items(out@) == diff@.subrange(0, i as int).map_values(|d: compare::DiffEntry| diff_json(d)),
        decreases diff@.len() - i,
    {
        let ghost before = out@;
        let x = diff_value(&diff[i]);
        out.push(x);
        proof {
            assert(out@.drop_last() =~= before);
            assert(diff@.subrange(0, i + 1).map_values(|d: compare::DiffEntry| diff_json(d)) =~= diff@.subrange(
                0,
                i as int,
            ).map_values(|d: compare::DiffEntry| diff_json(d)).push(diff_json(diff@[i as int])));
        }
        i = i + 1;
    }
    assert(diff@.subrange(0, diff@.len() as int) =~= diff@);
    JsonValue::Array(out)
}

/// The data of a scripted call's step (keys in sorted order): the actual
/// and expected values, the differences and their text, the call's error,
/// the expected error as the script gave it, the ignored paths, the input,
/// the snapshot key, whether a snapshot was written, and the tool.
pub open spec fn call_step_entries(
    tool: Seq<char>,
    input: crate::json::Json,
    v: StepVerdict,
    snapshot_key: Option<Seq<char>>,
    ignore: Seq<Seq<char>>,
    expect_error: Option<crate::json::Json>,
) -> Seq<(Seq<char>, crate::json::Json)> {
    use_opt(
        "actual"@,
        match v.actual {
            Some(a) => Some(a@),
            None => None,
        },
    ) + seq![("diff"@, crate::json::Json::Array(v.diff@.map_values(|d: compare::DiffEntry| diff_json(d))))]
        + use_opt(
        "diff_text"@,
        match v.diff_text {
            Some(t) => Some(crate::json::Json::Str(t@)),
            None => None,
        },
    ) + use_opt(
        "error"@,
        match v.error {
            Some(m) => Some(crate::json::Json::Object(seq![("message"@, crate::json::Json::Str(m@))])),
            None => None,
        },
    ) + use_opt("expect_error"@, expect_error) + use_opt(
        "expected"@,
        match v.expected {
            Some(x) => Some(x@),
            None => None,
        },
    ) + use_opt(
        "ignore_paths"@,
        if ignore.len() > 0 {
            Some(crate::catalog_contract::str_array(ignore))
        } else {
            None
        },
    ) + seq![("input"@, input)] + use_opt(
        "snapshot_key"@,
        match snapshot_key {
            Some(k) => Some(crate::json::Json::Str(k)),
            None => None,
        },
    ) + seq![("snapshot_written"@, crate::json::Json::Bool(v.snapshot_store is Some))] + seq![
        ("tool"@, crate::json::Json::Str(tool)),
    ]
}

pub open spec fn use_opt(key: Seq<char>, v: Option<crate::json::Json>) -> Seq<(Seq<char>, crate::json::Json)> {
    crate::catalog_contract::opt_entry(key, v)
}

/// The expected error as the script gave it: `true`/`false` or the text.
pub open spec fn expect_error_json(e: Option<ScenarioExpectError>) -> crate::json::Json {
    match e {
        Some(ScenarioExpectError::Bool(b)) => crate::json::Json::Bool(b),
        Some(ScenarioExpectError::String(t)) => crate::json::Json::Str(t@),
        None => crate::json::Json::Null,
    }
}

fn clone_json_opt(o: &Option<JsonValue>) -> (r: Option<JsonValue>)
    ensures
        crate::catalog_contract::opt_json_view(r) == match o {
            Some(x) => Some(x@),
            None => None,
        },
{
    match o {
        Some(x) => Some(x.deep_clone()),
        None => None,
    }
}

/// The step that reports one scripted tool call: named `tool.<key>`, with
/// the verdict's status and detail, and the data `call_step_entries`
/// describes; the expected error is recorded when the step expects one.
pub fn call_step(
    key: &str,
    tool: &str,
    input: JsonValue,
    verdict: &StepVerdict,
    snapshot_key: Option<&str>,
    ignore: &[String],
    expect_error: bool,
    raw_expect_error: &Option<ScenarioExpectError>,
) -> (r: crate::report::ProbeStep)
    ensures
        r.name@ == "tool."@ + key@,
        r.status == verdict.status,
        opt_view(r.detail) == opt_view(verdict.detail),
        r.data matches Some(d) && d@ == crate::json::Json::Object(
            call_step_entries(
                tool@,
                input@,
                *verdict,
                match snapshot_key {
                    Some(k) => Some(k@),
                    None => None,
                },
                crate::text::strings_view(ignore@),
                if expect_error {
                    Some(expect_error_json(*raw_expect_error))
                } else {
                    None
                },
            ),
        ),
{
    let mut e: Vec<(String, JsonValue)> = Vec::new();
    proof {
        assert(crate::json::view_entries(e@) =~= Seq::empty());
    }
    crate::catalog_contract::push_entry(&mut e, "actual", clone_json_opt(&verdict.actual));
    crate::catalog_contract::push_entry(&mut e, "diff", Some(diffs_value(&verdict.diff)));
    let dt = match &verdict.diff_text {
        Some(t) => Some(crate::catalog_contract::str_json(t.as_str())),
        None => None,
    };
    crate::catalog_contract::push_entry(&mut e, "diff_text", dt);
    let err = match &verdict.error {
        Some(m) => {
            let mut me: Vec<(String, JsonValue)> = Vec::new();
            proof {
                assert(crate::json::view_entries(me@) =~= Seq::empty());
            }
            crate::catalog_contract::push_entry(&mut me, "message", Some(crate::catalog_contract::str_json(m.as_str())));
            proof {
                assert(crate::json::view_entries(me@) =~= seq![("message"@, crate::json::Json::Str(m@))]);
            }
            Some(JsonValue::Object(me))
        },
        None => None,
    };
    crate::catalog_contract::push_entry(&mut e, "error", err);
    let ee = if expect_error {
        Some(
            match raw_expect_error {
                Some(ScenarioExpectError::Bool(b)) => JsonValue::Bool(*b),
                Some(ScenarioExpectError::String(t)) => JsonValue::String(t.clone()),
                None => JsonValue::Null,
            },
        )
    } else {
        None
    };
    crate::catalog_contract::push_entry(&mut e, "expect_error", ee);
    crate::catalog_contract::push_entry(&mut e, "expected", clone_json_opt(&verdict.expected));
    let ig = if ignore.len() > 0 {
        Some(crate::catalog_contract::str_array_json(ignore))
    } else {
        None
    };
    crate::catalog_contract::push_entry(&mut e, "ignore_paths", ig);
    crate::catalog_contract::push_entry(&mut e, "input", Some(input));
    let sk = match snapshot_key {
        Some(k) => Some(crate::catalog_contract::str_json(k)),
        None => None,
    };
    crate::catalog_contract::push_entry(&mut e, "snapshot_key", sk);
    crate::catalog_contract::push_entry(&mut e, "snapshot_written", Some(JsonValue::Bool(verdict.snapshot_store.is_some())));
    crate::catalog_contract::push_entry(&mut e, "tool", Some(crate::catalog_contract::str_json(tool)));
    let data = JsonValue::Object(e);
    crate::report::ProbeStep {
        name: crate::text::concat2("tool.", key),
        status: verdict.status,
        detail: crate::text::clone_opt_string(&verdict.detail),
        data: Some(data),
    }
}

} // verus!
