//! Report models shared by every probe mode, and the rules that shrink a
//! report for summary output.

use vstd::prelude::*;
use crate::json::JsonValue;
use crate::text::str_eq;

verus! {

/// Status for a probe step.
#[derive(Clone, Copy, Debug, PartialEq, Eq, Structural)]
pub enum ProbeStepStatus {
    /// The step succeeded (serialized as `ok`).
    Passed,
    Error,
}

/// A single named step in a probe report.
pub struct ProbeStep {
    pub name: String,
    pub status: ProbeStepStatus,
    pub detail: Option<String>,
    pub data: Option<JsonValue>,
}

/// Severity for a tool schema compatibility finding.
#[derive(Clone, Copy, Debug, PartialEq, Eq, Structural)]
pub enum ToolSchemaCompatibilitySeverity {
    Error,
    Warning,
}

/// Client-compatibility issue found in an advertised MCP tool schema.
pub struct ToolSchemaCompatibilityFinding {
    pub severity: ToolSchemaCompatibilitySeverity,
    pub code: String,
    pub tool_name: String,
    pub schema_path: String,
    pub message: String,
    pub hint: String,
    pub fragment: Option<JsonValue>,
}

/// Redacted JSON-RPC trace entry.
pub struct TraceEntry {
    pub direction: String,
    pub timestamp: String,
    pub message: JsonValue,
    pub method: Option<String>,
    pub id: Option<JsonValue>,
}

/// Summary of one catalog discovery method in a shareable catalog artifact.
pub struct CatalogMethodSummary {
    pub method: String,
    pub status: ProbeStepStatus,
    pub detail: Option<String>,
    pub page_count: Option<usize>,
    pub item_count: Option<usize>,
}

/// Redaction policy metadata for a shareable catalog artifact.
pub struct CatalogRedaction {
    pub state: String,
    pub policy: String,
}

/// Host/client catalog-discovery profile applied to a probe run.
#[derive(Clone, Copy, Debug, PartialEq, Eq, Hash, Structural)]
pub enum CatalogProfile {
    RawMcp,
    ChatgptTool,
    AppsSdkUi,
    CodexDeferred,
    ClaudeCode,
    GeminiCli,
}

/// The wire name of a catalog profile.
pub open spec fn catalog_profile_name(p: CatalogProfile) -> Seq<char> {
    match p {
        CatalogProfile::RawMcp => "raw_mcp"@,
        CatalogProfile::ChatgptTool => "chatgpt_tool"@,
        CatalogProfile::AppsSdkUi => "apps_sdk_ui"@,
        CatalogProfile::CodexDeferred => "codex_deferred"@,
        CatalogProfile::ClaudeCode => "claude_code"@,
        CatalogProfile::GeminiCli => "gemini_cli"@,
    }
}

/// The kebab-case spelling of the `claude_code` profile name: the
/// underscore replaced by a hyphen.
pub open spec fn claude_kebab() -> Seq<char> {
    "claude_code"@.update(6, '-')
}

fn claude_kebab_exec() -> (r: String)
    ensures
        r@ == claude_kebab(),
{
    let mut cs = crate::text::chars_of("claude_code");
    proof {
        reveal_strlit("claude_code");
    }
    cs.set(6, '-');
    crate::text::string_of(&cs)
}

/// The profile a name selects: the snake-case wire name or its kebab-case
/// spelling.
pub open spec fn catalog_profile_from_name(v: Seq<char>) -> Option<CatalogProfile> {
    if v == "raw_mcp"@ || v == "raw-mcp"@ {
        Some(CatalogProfile::RawMcp)
    } else if v == "chatgpt_tool"@ || v == "chatgpt-tool"@ {
        Some(CatalogProfile::ChatgptTool)
    } else if v == "apps_sdk_ui"@ || v == "apps-sdk-ui"@ {
        Some(CatalogProfile::AppsSdkUi)
    } else if v == "codex_deferred"@ || v == "codex-deferred"@ {
        Some(CatalogProfile::CodexDeferred)
    } else if v == "claude_code"@ || v == claude_kebab() {
        Some(CatalogProfile::ClaudeCode)
    } else if v == "gemini_cli"@ || v == "gemini-cli"@ {
        Some(CatalogProfile::GeminiCli)
    } else {
        None
    }
}

/// The message for a name that selects no profile.
pub open spec fn invalid_catalog_profile_message(v: Seq<char>) -> Seq<char> {
    "Invalid catalog profile `"@ + v
        + "`. Expected one of: raw_mcp, chatgpt_tool, apps_sdk_ui, codex_deferred, claude_code, gemini_cli."@
}

impl CatalogProfile {
    /// The wire name of the profile.
    pub fn as_str(self) -> (r: &'static str)
        ensures
            r@ == catalog_profile_name(self),
    {
        match self {
            CatalogProfile::RawMcp => "raw_mcp",
            CatalogProfile::ChatgptTool => "chatgpt_tool",
            CatalogProfile::AppsSdkUi => "apps_sdk_ui",
            CatalogProfile::CodexDeferred => "codex_deferred",
            CatalogProfile::ClaudeCode => "claude_code",
            CatalogProfile::GeminiCli => "gemini_cli",
        }
    }

    /// Parse a profile name (snake or kebab case).
    pub fn parse(value: &str) -> (r: Result<CatalogProfile, String>)
        ensures
            match r {
                Ok(p) => catalog_profile_from_name(value@) == Some(p),
                Err(m) => catalog_profile_from_name(value@) is None && m@
                    == invalid_catalog_profile_message(value@),
            },
    {
        if str_eq(value, "raw_mcp") || str_eq(value, "raw-mcp") {
            Ok(CatalogProfile::RawMcp)
        } else if str_eq(value, "chatgpt_tool") || str_eq(value, "chatgpt-tool") {
            Ok(CatalogProfile::ChatgptTool)
        } else if str_eq(value, "apps_sdk_ui") || str_eq(value, "apps-sdk-ui") {
            Ok(CatalogProfile::AppsSdkUi)
        } else if str_eq(value, "codex_deferred") || str_eq(value, "codex-deferred") {
            Ok(CatalogProfile::CodexDeferred)
        } else if str_eq(value, "claude_code") || str_eq(value, claude_kebab_exec().as_str()) {
            Ok(CatalogProfile::ClaudeCode)
        } else if str_eq(value, "gemini_cli") || str_eq(value, "gemini-cli") {
            Ok(CatalogProfile::GeminiCli)
        } else {
            Err(crate::text::concat3(
                "Invalid catalog profile `",
                value,
                "`. Expected one of: raw_mcp, chatgpt_tool, apps_sdk_ui, codex_deferred, claude_code, gemini_cli.",
            ))
        }
    }
}

/// One required or optional catalog-profile assertion.
pub struct CatalogProfileRequirement {
    pub name: String,
    pub required: bool,
    pub status: ProbeStepStatus,
    pub detail: Option<String>,
    pub item_count: Option<usize>,
}

/// Host-profile verdict derived from the catalog discovery methods.
pub struct CatalogProfileVerdict {
    pub profile: CatalogProfile,
    pub status: ProbeStepStatus,
    pub detail: String,
    pub requirements: Vec<CatalogProfileRequirement>,
    pub findings: Vec<String>,
}

/// The schema version a catalog contract has when it names none.
pub fn default_catalog_contract_schema_version() -> (r: u32)
    ensures
        r == 1,
{
    1
}

/// Expected native MCP catalog contract consumed by probe runs.
pub struct CatalogContract {
    pub schema_version: u32,
    pub transport: Option<String>,
    pub catalog_profile: Option<CatalogProfile>,
    pub descriptor_profile: Option<String>,
    pub catalog_fingerprint: Option<String>,
    pub expected_tool_count: Option<usize>,
    pub min_tool_count: Option<usize>,
    pub expected_resource_count: Option<usize>,
    pub min_resource_count: Option<usize>,
    pub expected_resource_template_count: Option<usize>,
    pub min_resource_template_count: Option<usize>,
    pub expected_prompt_count: Option<usize>,
    pub min_prompt_count: Option<usize>,
    pub required_tools: Vec<String>,
    pub required_resources: Vec<String>,
    pub required_resource_templates: Vec<String>,
    pub required_prompts: Vec<String>,
    pub build: Option<String>,
    pub server_mode: Option<String>,
    pub schema_budget: Option<JsonValue>,
    pub metadata: Option<JsonValue>,
}

impl Default for CatalogContract {
    /// An empty contract: every field absent or empty, schema version 0.
    fn default() -> (r: Self)
        ensures
            r.schema_version == 0,
            r.transport is None,
            r.catalog_profile is None,
            r.descriptor_profile is None,
            r.catalog_fingerprint is None,
            r.expected_tool_count is None,
            r.min_tool_count is None,
            r.expected_resource_count is None,
            r.min_resource_count is None,
            r.expected_resource_template_count is None,
            r.min_resource_template_count is None,
            r.expected_prompt_count is None,
            r.min_prompt_count is None,
            r.required_tools@.len() == 0,
            r.required_resources@.len() == 0,
            r.required_resource_templates@.len() == 0,
            r.required_prompts@.len() == 0,
            r.build is None,
            r.server_mode is None,
            r.schema_budget is None,
            r.metadata is None,
    {
        CatalogContract {
            schema_version: 0,
            transport: None,
            catalog_profile: None,
            descriptor_profile: None,
            catalog_fingerprint: None,
            expected_tool_count: None,
            min_tool_count: None,
            expected_resource_count: None,
            min_resource_count: None,
            expected_resource_template_count: None,
            min_resource_template_count: None,
            expected_prompt_count: None,
            min_prompt_count: None,
            required_tools: Vec::new(),
            required_resources: Vec::new(),
            required_resource_templates: Vec::new(),
            required_prompts: Vec::new(),
            build: None,
            server_mode: None,
            schema_budget: None,
            metadata: None,
        }
    }
}

/// One assertion made while comparing a live catalog to a contract.
pub struct CatalogContractRequirement {
    pub name: String,
    pub status: ProbeStepStatus,
    pub detail: String,
    pub expected: Option<JsonValue>,
    pub actual: Option<JsonValue>,
}

/// Probe verdict for an expected native MCP catalog contract.
pub struct CatalogContractVerdict {
    pub schema_version: u32,
    pub status: ProbeStepStatus,
    pub detail: String,
    pub actual_fingerprint: String,
    pub requirements: Vec<CatalogContractRequirement>,
    pub findings: Vec<String>,
    pub contract: CatalogContract,
}

/// MCP catalog evidence suitable for work-item receipts.
pub struct CatalogArtifact {
    pub schema_version: u32,
    pub generated_at: String,
    pub redaction: CatalogRedaction,
    pub methods: Vec<CatalogMethodSummary>,
    pub profile: Option<CatalogProfileVerdict>,
    pub contract: Option<CatalogContractVerdict>,
    pub server_info: Option<JsonValue>,
    pub capabilities: Option<JsonValue>,
    pub tools: Option<JsonValue>,
    pub resources: Option<JsonValue>,
    pub resource_templates: Option<JsonValue>,
    pub prompts: Option<JsonValue>,
}

/// Auth discovery metadata captured from PRM/OAuth endpoints.
pub struct AuthDiscovery {
    pub resource_metadata_url: Option<String>,
    pub resource_metadata: Option<JsonValue>,
    pub authorization_server: Option<String>,
    pub oauth_metadata_url: Option<String>,
    pub oauth_metadata: Option<JsonValue>,
    pub registration_endpoint: Option<String>,
}

/// Report for a full probe run.
pub struct ProbeReport {
    pub ok: bool,
    pub started_at: String,
    pub finished_at: String,
    pub steps: Vec<ProbeStep>,
    pub auth: Option<AuthDiscovery>,
    pub server_info: Option<JsonValue>,
    pub capabilities: Option<JsonValue>,
    pub tools: Option<JsonValue>,
    pub resources: Option<JsonValue>,
    pub resource_templates: Option<JsonValue>,
    pub prompts: Option<JsonValue>,
    pub catalog: Option<CatalogArtifact>,
    pub trace: Option<Vec<TraceEntry>>,
}

/// Report for Last-Event-ID replay validation.
pub struct ReplayProbeReport {
    pub ok: bool,
    pub started_at: String,
    pub finished_at: String,
    pub steps: Vec<ProbeStep>,
    pub session_id: Option<String>,
    pub event_id: Option<String>,
    pub last_event_id: Option<String>,
}

/// Report for HTTP smoke checks (PRM + OAuth discovery).
pub struct HttpSmokeReport {
    pub ok: bool,
    pub started_at: String,
    pub finished_at: String,
    pub steps: Vec<ProbeStep>,
    pub auth: Option<AuthDiscovery>,
}

/// Report for a raw JSON-RPC request.
pub struct RawRequestReport {
    pub ok: bool,
    pub started_at: String,
    pub finished_at: String,
    pub steps: Vec<ProbeStep>,
    pub server_info: Option<JsonValue>,
    pub capabilities: Option<JsonValue>,
    pub result: Option<JsonValue>,
    pub error: Option<String>,
    pub auth: Option<AuthDiscovery>,
    pub trace: Option<Vec<TraceEntry>>,
}

/// Output verbosity for probe reports.
#[derive(Clone, Copy, Debug, PartialEq, Eq, Structural)]
pub enum ReportVerbosity {
    Summary,
    Full,
}

/// The auth summary kept in summary output: only the URL-valued fields, and
/// nothing at all when none of them is present.
pub open spec fn summarized_auth(auth: Option<AuthDiscovery>) -> Option<AuthDiscovery> {
    match auth {
        None => None,
        Some(a) => if a.resource_metadata_url is None && a.authorization_server is None
            && a.oauth_metadata_url is None && a.registration_endpoint is None {
            None
        } else {
            Some(
                AuthDiscovery {
                    resource_metadata_url: a.resource_metadata_url,
                    resource_metadata: None,
                    authorization_server: a.authorization_server,
                    oauth_metadata_url: a.oauth_metadata_url,
                    oauth_metadata: None,
                    registration_endpoint: a.registration_endpoint,
                },
            )
        },
    }
}

/// The catalog kept in summary output: the artifact without its payloads.
pub open spec fn summarized_catalog(catalog: Option<CatalogArtifact>) -> Option<CatalogArtifact> {
    match catalog {
        None => None,
        Some(c) => Some(
            CatalogArtifact {
                server_info: None,
                capabilities: None,
                tools: None,
                resources: None,
                resource_templates: None,
                prompts: None,
                ..c
            },
        ),
    }
}

/// The report that summary output keeps of `r`.
pub open spec fn summarized_report(r: ProbeReport) -> ProbeReport {
    ProbeReport {
        tools: None,
        resources: None,
        resource_templates: None,
        prompts: None,
        trace: None,
        auth: summarized_auth(r.auth),
        catalog: summarized_catalog(r.catalog),
        ..r
    }
}

/// The report as `verbosity` shows it.
pub open spec fn report_with_verbosity(r: ProbeReport, v: Option<ReportVerbosity>) -> ProbeReport {
    match v {
        Some(ReportVerbosity::Full) => r,
        _ => summarized_report(r),
    }
}

fn summarize_auth(auth: Option<AuthDiscovery>) -> (r: Option<AuthDiscovery>)
    ensures
        r == summarized_auth(auth),
{
    match auth {
        None => None,
        Some(a) => {
            if a.resource_metadata_url.is_none() && a.authorization_server.is_none()
                && a.oauth_metadata_url.is_none() && a.registration_endpoint.is_none() {
                None
            } else {
                Some(
                    AuthDiscovery {
                        resource_metadata_url: a.resource_metadata_url,
                        resource_metadata: None,
                        authorization_server: a.authorization_server,
                        oauth_metadata_url: a.oauth_metadata_url,
                        oauth_metadata: None,
                        registration_endpoint: a.registration_endpoint,
                    },
                )
            }
        },
    }
}

fn summarize_catalog(catalog: Option<CatalogArtifact>) -> (r: Option<CatalogArtifact>)
    ensures
        r == summarized_catalog(catalog),
{
    match catalog {
        None => None,
        Some(mut c) => {
            c.server_info = None;
            c.capabilities = None;
            c.tools = None;
            c.resources = None;
            c.resource_templates = None;
            c.prompts = None;
            Some(c)
        },
    }
}

/// Apply report verbosity: `Full` keeps everything; otherwise the large
/// payloads are dropped and auth and catalog are summarized.
pub fn apply_report_verbosity(report: ProbeReport, verbosity: Option<ReportVerbosity>) -> (r:
    ProbeReport)
    ensures
        r == report_with_verbosity(report, verbosity),
{
    match verbosity {
        Some(ReportVerbosity::Full) => report,
        _ => {
            let mut report = report;
            report.tools = None;
            report.resources = None;
            report.resource_templates = None;
            report.prompts = None;
            report.trace = None;
            report.auth = summarize_auth(report.auth);
            report.catalog = summarize_catalog(report.catalog);
            report
        },
    }
}

/// Summary output is stable: summarizing a summarized report changes nothing.
pub proof fn lemma_summary_idempotent(r: ProbeReport)
    ensures
        summarized_report(summarized_report(r)) == summarized_report(r),
{
}

/// Full verbosity leaves a report exactly as it was.
pub proof fn lemma_full_verbosity_is_identity(r: ProbeReport)
    ensures
        report_with_verbosity(r, Some(ReportVerbosity::Full)) == r,
{
}


// ---------------------------------------------------------------------------
// Redacting credential-shaped tokens in text.
// ---------------------------------------------------------------------------

/// The prefixes of credential tokens: OpenAI, GitHub, Slack and Google
/// ones.
pub open spec fn sensitive_prefixes() -> Seq<Seq<char>> {
    seq![
        seq!['s', 'k', '-'],
        seq!['g', 'h', 'p', '_'],
        seq!['g', 'i', 't', 'h', 'u', 'b', '_', 'p', 'a', 't', '_'],
        seq!['x', 'o', 'x', 'b', '-'],
        seq!['x', 'o', 'x', 'p', '-'],
        seq!['y', 'a', '2', '9', '.'],
    ]
}

/// The length of the first listed prefix (from the `k`-th on) that occurs
/// at position `i`.
pub open spec fn prefix_from(s: Seq<char>, i: int, k: int) -> Option<nat>
    decreases 6 - k,
{
    if k < 0 || k >= 6 {
        None
    } else if crate::text::occurs_at(s, sensitive_prefixes()[k], i) {
        Some(sensitive_prefixes()[k].len())
    } else {
        prefix_from(s, i, k + 1)
    }
}

pub proof fn lemma_prefix_from(s: Seq<char>, i: int, k: int)
    ensures
        prefix_from(s, i, k) matches Some(n) ==> n >= 3,
    decreases 6 - k,
{
    if 0 <= k < 6 {
        lemma_prefix_from(s, i, k + 1);
    }
}

/// A character a token continues with: ASCII letters and digits, `-`, `_`
/// and `.`.
pub open spec fn token_char(c: char) -> bool {
    ('a' <= c && c <= 'z') || ('A' <= c && c <= 'Z') || ('0' <= c && c <= '9') || c == '-' || c == '_' || c == '.'
}

/// Where the token continuing at `i` ends.
pub open spec fn token_end(s: Seq<char>, i: int) -> int
    decreases s.len() - i,
{
    if 0 <= i < s.len() && token_char(s[i]) {
        token_end(s, i + 1)
    } else {
        i
    }
}

pub proof fn lemma_token_end(s: Seq<char>, i: int)
    ensures
        token_end(s, i) >= i,
        0 <= i <= s.len() ==> token_end(s, i) <= s.len(),
    decreases s.len() - i,
{
    if 0 <= i < s.len() && token_char(s[i]) {
        lemma_token_end(s, i + 1);
    }
}

/// The text from position `i` with each token that starts with a
/// sensitive prefix replaced by `repl`.
pub open spec fn redacted_tokens(s: Seq<char>, i: int, repl: Seq<char>) -> Seq<char>
    decreases s.len() - i,
{
    if i < 0 || i >= s.len() {
        Seq::empty()
    } else {
        match prefix_from(s, i, 0) {
            Some(n) => {
                proof {
                    lemma_prefix_from(s, i, 0);
                    lemma_prefix_within(s, i, 0);
                    lemma_token_end(s, i + n);
                }
                repl + redacted_tokens(s, token_end(s, i + n), repl)
            },
            None => seq![s[i]] + redacted_tokens(s, i + 1, repl),
        }
    }
}

fn is_token_char(c: char) -> (r: bool)
    ensures
        r == token_char(c),
{
    ('a' <= c && c <= 'z') || ('A' <= c && c <= 'Z') || ('0' <= c && c <= '9') || c == '-' || c == '_' || c == '.'
}

fn prefix_len_at(s: &Vec<char>, i: usize) -> (r: Option<usize>)
    ensures
        match r {
            Some(n) => prefix_from(s@, i as int, 0) == Some(n as nat),
            None => prefix_from(s@, i as int, 0) is None,
        },
{
    let ps: Vec<Vec<char>> = vec![
        vec!['s', 'k', '-'],
        vec!['g', 'h', 'p', '_'],
        vec!['g', 'i', 't', 'h', 'u', 'b', '_', 'p', 'a', 't', '_'],
        vec!['x', 'o', 'x', 'b', '-'],
        vec!['x', 'o', 'x', 'p', '-'],
        vec!['y', 'a', '2', '9', '.'],
    ];
    assert(ps@.map_values(|p: Vec<char>| p@) =~= sensitive_prefixes());
    let mut k: usize = 0;
    while k < ps.len()
        invariant
            k <= ps@.len() == 6,
            ps@.map_values(|p: Vec<char>| p@) == sensitive_prefixes(),
            prefix_from(s@, i as int, 0) == prefix_from(s@, i as int, k as int),
        decreases ps@.len() - k,
    {
        assert(ps@[k as int]@ == sensitive_prefixes()[k as int]);
        if crate::text::occurs_at_exec(s.as_slice(), ps[k].as_slice(), i) {
            return Some(ps[k].len());
        }
        k = k + 1;
    }
    None
}

/// Replace each token that starts with a sensitive prefix (`sk-`, `ghp_`,
/// `github_pat_`, `xoxb-`, `xoxp-`, `ya29.`), up to the first character
/// that is not an ASCII letter, digit, `-`, `_` or `.`, by `replacement`.
pub fn redact_prefixed_tokens(text: &str, replacement: &str) -> (r: String)
    ensures
        r@ == redacted_tokens(text@, 0, replacement@),
{
    let cs = crate::text::chars_of(text);
    let repl = crate::text::chars_of(replacement);
    let mut out: Vec<char> = Vec::new();
    let mut i: usize = 0;
    while i < cs.len()
        invariant
            i <= cs@.len(),
            cs@ == text@,
            repl@ == replacement@,
            out@ + redacted_tokens(cs@, i as int, repl@) == redacted_tokens(cs@, 0, repl@),
        decreases cs@.len() - i,
    {
        let ghost before = out@;
        match prefix_len_at(&cs, i) {
            Some(n) => {
                proof {
                    lemma_prefix_from(cs@, i as int, 0);
                    lemma_prefix_within(cs@, i as int, 0);
                }
                let mut k: usize = 0;
                while k < repl.len()
                    invariant
                        k <= repl@.len(),
                        out@ == before + repl@.take(k as int),
                    decreases repl@.len() - k,
                {
                    out.push(repl[k]);
                    assert(repl@.take(k + 1) =~= repl@.take(k as int).push(repl@[k as int]));
                    k = k + 1;
                }
                assert(repl@.take(k as int) =~= repl@);
                let mut j: usize = i + n;
                proof {
                    lemma_token_end(cs@, j as int);
                }
                while j < cs.len() && is_token_char(cs[j])
                    invariant
                        i + n <= j <= cs@.len(),
                        token_end(cs@, (i + n) as int) == token_end(cs@, j as int),
                    decreases cs@.len() - j,
                {
                    j = j + 1;
                }
                proof {
                    assert(out@ + redacted_tokens(cs@, j as int, repl@) =~= before + redacted_tokens(cs@, i as int, repl@));
                }
                i = j;
            },
            None => {
                out.push(cs[i]);
                proof {
                    assert(out@ + redacted_tokens(cs@, i + 1, repl@) =~= before + redacted_tokens(cs@, i as int, repl@));
                }
                i = i + 1;
            },
        }
    }
    crate::text::string_of(out.as_slice())
}

pub proof fn lemma_prefix_within(s: Seq<char>, i: int, k: int)
    ensures
        prefix_from(s, i, k) matches Some(n) ==> i + n <= s.len(),
    decreases 6 - k,
{
    if 0 <= k < 6 {
        lemma_prefix_within(s, i, k + 1);
    }
}

} // verus!

verus! {

/// Every step of a run passed.
pub open spec fn all_passed(steps: Seq<ProbeStep>) -> bool {
    forall|i: int| 0 <= i < steps.len() ==> #[trigger] steps[i].status == ProbeStepStatus::Passed
}

/// Whether every step of a run passed: a report's overall verdict.
pub fn steps_ok(steps: &[ProbeStep]) -> (r: bool)
    ensures
        r == all_passed(steps@),
{
    let mut i: usize = 0;
    while i < steps.len()
        invariant
            i <= steps@.len(),
            forall|k: int| 0 <= k < i ==> #[trigger] steps@[k].status == ProbeStepStatus::Passed,
        decreases steps@.len() - i,
    {
        if steps[i].status != ProbeStepStatus::Passed {
            return false;
        }
        i = i + 1;
    }
    true
}

/// One failed step fails the run, whatever else was recorded.
pub proof fn lemma_error_step_fails_run(before: Seq<ProbeStep>, failed: ProbeStep, after: Seq<ProbeStep>)
    requires
        failed.status == ProbeStepStatus::Error,
    ensures
        !all_passed(before.push(failed) + after),
{
    assert((before.push(failed) + after)[before.len() as int] == failed);
}

/// A run passes exactly when both of its parts do.
pub proof fn lemma_all_passed_concat(a: Seq<ProbeStep>, b: Seq<ProbeStep>)
    ensures
        all_passed(a + b) == (all_passed(a) && all_passed(b)),
{
    if all_passed(a) && all_passed(b) {
        assert forall|i: int| 0 <= i < (a + b).len() implies #[trigger] (a + b)[i].status == ProbeStepStatus::Passed by {
            if i < a.len() {
                assert((a + b)[i] == a[i]);
            } else {
                assert((a + b)[i] == b[i - a.len()]);
            }
        }
    }
    if all_passed(a + b) {
        assert forall|i: int| 0 <= i < a.len() implies #[trigger] a[i].status == ProbeStepStatus::Passed by {
            assert((a + b)[i] == a[i]);
        }
        assert forall|i: int| 0 <= i < b.len() implies #[trigger] b[i].status == ProbeStepStatus::Passed by {
            assert((a + b)[a.len() + i] == b[i]);
        }
    }
}

} // verus!
