//! Startup admission policy for test-test enforcement: the configuration
//! read from settings, and the verdict reached from what was observed about
//! the admission artifact and the executable.

use vstd::prelude::*;
use crate::text::{
    ascii_lower, opt_view, str_eq, str_starts_with, starts_with, trim, trim_str, unsigned_at_most,
    unsigned_value, is_blank, is_blank_str, parse_unsigned, decimal,
};

verus! {

/// Reason code: admission is switched off.
pub const CODE_DISABLED: &'static str = "admission.disabled";
/// Reason code: an operator bypass is active.
pub const CODE_OVERRIDE: &'static str = "admission.override.active";
/// Reason code: the admission artifact is missing or unreadable.
pub const CODE_MISSING: &'static str = "admission.gate.missing";
/// Reason code: the admission artifact expired or is older than the executable.
pub const CODE_EXPIRED: &'static str = "admission.gate.expired";
/// Reason code: the admission artifact's status or payload is not acceptable.
pub const CODE_STATUS_INVALID: &'static str = "admission.gate.status_invalid";
/// Reason code: the artifact was produced for another component.
pub const CODE_COMPONENT_MISMATCH: &'static str = "admission.gate.component_mismatch";
/// Reason code: the artifact level differs from the required profile.
pub const CODE_LEVEL_MISMATCH: &'static str = "admission.gate.level_mismatch";
/// Reason code: the artifact was produced for another build.
pub const CODE_BUILD_MISMATCH: &'static str = "admission.gate.build_mismatch";
/// Reason code: the artifact was produced for other sources.
pub const CODE_SOURCE_MISMATCH: &'static str = "admission.gate.source_mismatch";
/// Reason code: the artifact's command manifest digest is malformed.
pub const CODE_MANIFEST_MISMATCH: &'static str = "admission.gate.manifest_mismatch";
/// Reason code: a timestamp could not be read.
pub const CODE_TIMESTAMP_INVALID: &'static str = "admission.gate.timestamp_invalid";
/// Reason code: the runtime does not know its own build.
pub const CODE_PROVENANCE_UNAVAILABLE: &'static str = "admission.runtime.provenance_unavailable";

/// How strictly start-up admission is enforced.
#[derive(Clone, Copy, Debug, PartialEq, Eq, Structural)]
pub enum StartupAdmissionMode {
    Off,
    Warn,
    Strict,
}

impl StartupAdmissionMode {
    /// The wire name of the mode.
    pub fn enforcement_phase(self) -> (r: &'static str)
        ensures
            r@ == (match self {
                StartupAdmissionMode::Off => "off"@,
                StartupAdmissionMode::Warn => "warn"@,
                StartupAdmissionMode::Strict => "strict"@,
            }),
    {
        match self {
            StartupAdmissionMode::Off => "off",
            StartupAdmissionMode::Warn => "warn",
            StartupAdmissionMode::Strict => "strict",
        }
    }
}

/// The test test a build must have passed.
#[derive(Clone, Copy, Debug, PartialEq, Eq, Structural)]
pub enum TestGateProfile {
    Fast,
    Standard,
}

/// The label of a test profile.
pub open spec fn gate_label(p: TestGateProfile) -> Seq<char> {
    match p {
        TestGateProfile::Fast => "fast"@,
        TestGateProfile::Standard => "standard"@,
    }
}

impl TestGateProfile {
    /// The label of the profile.
    pub fn label(self) -> (r: &'static str)
        ensures
            r@ == gate_label(self),
    {
        match self {
            TestGateProfile::Fast => "fast",
            TestGateProfile::Standard => "standard",
        }
    }
}

/// Start-up admission configuration.
pub struct StartupAdmissionConfig {
    pub mode: StartupAdmissionMode,
    pub required_profile: TestGateProfile,
    pub fast_gate_artifact_path: String,
    pub standard_gate_artifact_path: String,
    pub bypass: bool,
    pub bypass_reason: Option<String>,
    pub bypass_ttl_s: Option<u64>,
    pub production_mode: bool,
    pub allow_production_bypass: bool,
}

/// The verdict of start-up admission.
#[derive(Clone, Copy, Debug, PartialEq, Eq, Structural)]
pub enum AdmissionOutcome {
    Disabled,
    Bypassed,
    Passed,
    Warning,
    Rejected,
}

impl AdmissionOutcome {
    /// The wire name of the outcome.
    pub fn as_str(self) -> (r: &'static str)
        ensures
            r@ == (match self {
                AdmissionOutcome::Disabled => "disabled"@,
                AdmissionOutcome::Bypassed => "bypassed"@,
                AdmissionOutcome::Passed => "passed"@,
                AdmissionOutcome::Warning => "warn"@,
                AdmissionOutcome::Rejected => "rejected"@,
            }),
    {
        match self {
            AdmissionOutcome::Disabled => "disabled",
            AdmissionOutcome::Bypassed => "bypassed",
            AdmissionOutcome::Passed => "passed",
            AdmissionOutcome::Warning => "warn",
            AdmissionOutcome::Rejected => "rejected",
        }
    }
}

/// The result of evaluating start-up admission.
pub struct AdmissionEvaluation {
    pub outcome: AdmissionOutcome,
    pub profile: TestGateProfile,
    pub gate_path: String,
    pub reason_code: Option<String>,
    pub detail: String,
    pub override_active: bool,
}

/// The text of `{value:?}` for a string (quoted, with escapes).
pub uninterp spec fn debug_quoted(s: Seq<char>) -> Seq<char>;

/// Trusted: `format!("{value:?}")` for a `&str`, the standard library's
/// quoted and escaped rendering. Its text is a function of the input and is
/// named `debug_quoted`.
#[verifier::external_body]
fn quote_debug(value: &str) -> (r: String)
    ensures
        r@ == debug_quoted(value@),
{
    format!("{value:?}")
}

/// The mode a (trimmed, lower-cased) setting selects.
pub open spec fn mode_from_setting(v: Seq<char>) -> Option<StartupAdmissionMode> {
    if v == ""@ || v == "off"@ || v == "0"@ || v == "false"@ {
        Some(StartupAdmissionMode::Off)
    } else if v == "warn"@ {
        Some(StartupAdmissionMode::Warn)
    } else if v == "strict"@ {
        Some(StartupAdmissionMode::Strict)
    } else {
        None
    }
}

/// Parse the admission mode setting.
pub fn parse_startup_admission_mode(value: &str) -> (r: Result<StartupAdmissionMode, String>)
    ensures
        match r {
            Ok(m) => mode_from_setting(ascii_lower(trim(value@))) == Some(m),
            Err(e) => mode_from_setting(ascii_lower(trim(value@))) is None && e@
                == "Unsupported MCP_PROBE_STARTUP_ADMISSION_MODE="@ + debug_quoted(
                ascii_lower(trim(value@)),
            ) + "; use off, warn, or strict."@,
        },
{
    let t = trim_str(value);
    let v = crate::text::ascii_lower_str(t.as_str());
    let v = v.as_str();
    if str_eq(v, "") || str_eq(v, "off") || str_eq(v, "0") || str_eq(v, "false") {
        Ok(StartupAdmissionMode::Off)
    } else if str_eq(v, "warn") {
        Ok(StartupAdmissionMode::Warn)
    } else if str_eq(v, "strict") {
        Ok(StartupAdmissionMode::Strict)
    } else {
        let mut e = String::from_str("Unsupported MCP_PROBE_STARTUP_ADMISSION_MODE=");
        e.append(quote_debug(v).as_str());
        e.append("; use off, warn, or strict.");
        Err(e)
    }
}

/// The test profile a (trimmed, lower-cased) setting selects.
pub open spec fn profile_from_setting(v: Seq<char>) -> Option<TestGateProfile> {
    if v == ""@ || v == "fast"@ {
        Some(TestGateProfile::Fast)
    } else if v == "standard"@ {
        Some(TestGateProfile::Standard)
    } else {
        None
    }
}

/// Parse the required test profile setting.
pub fn parse_test_gate_profile(value: &str) -> (r: Result<TestGateProfile, String>)
    ensures
        match r {
            Ok(p) => profile_from_setting(ascii_lower(trim(value@))) == Some(p),
            Err(e) => profile_from_setting(ascii_lower(trim(value@))) is None && e@
                == "Unsupported MCP_PROBE_TEST_GATE_REQUIRED_PROFILE="@ + debug_quoted(
                ascii_lower(trim(value@)),
            ) + "; use fast or standard."@,
        },
{
    let t = trim_str(value);
    let v = crate::text::ascii_lower_str(t.as_str());
    let v = v.as_str();
    if str_eq(v, "") || str_eq(v, "fast") {
        Ok(TestGateProfile::Fast)
    } else if str_eq(v, "standard") {
        Ok(TestGateProfile::Standard)
    } else {
        let mut e = String::from_str("Unsupported MCP_PROBE_TEST_GATE_REQUIRED_PROFILE=");
        e.append(quote_debug(v).as_str());
        e.append("; use fast or standard.");
        Err(e)
    }
}

/// An optional setting: its trimmed value, absent when unset or blank.
pub open spec fn optional_setting(raw: Option<Seq<char>>) -> Option<Seq<char>> {
    match raw {
        Some(v) => if trim(v).len() == 0 {
            None
        } else {
            Some(trim(v))
        },
        None => None,
    }
}

/// The trimmed value of an optional setting, absent when unset or blank.
pub fn env_optional_string(raw: Option<&str>) -> (r: Option<String>)
    ensures
        opt_view(r) == optional_setting(
            match raw {
                Some(s) => Some(s@),
                None => None,
            },
        ),
{
    match raw {
        Some(v) => {
            let t = trim_str(v);
            if t.as_str().unicode_len() == 0 {
                None
            } else {
                Some(t)
            }
        },
        None => None,
    }
}


/// The view of an optional borrowed string.
pub open spec fn opt_str_view(v: Option<&str>) -> Option<Seq<char>> {
    match v {
        Some(s) => Some(s@),
        None => None,
    }
}

/// The message for an unparsable unsigned setting, as `ParseIntError`
/// displays it for a non-empty text.
pub open spec fn u64_setting_error(name: Seq<char>, v: Seq<char>) -> Seq<char> {
    "invalid "@ + name + ": "@ + if unsigned_value(v) is None {
        "invalid digit found in string"@
    } else {
        "number too large to fit in target type"@
    }
}

/// Parse an optional unsigned setting named `name`.
pub fn env_optional_u64(name: &str, raw: Option<&str>) -> (r: Result<Option<u64>, String>)
    ensures
        match optional_setting(opt_str_view(raw)) {
            None => r == Ok::<Option<u64>, String>(None),
            Some(v) => match unsigned_at_most(v, u64::MAX as nat) {
                Some(n) => r == Ok::<Option<u64>, String>(Some(n as u64)),
                None => r is Err && r->Err_0@ == u64_setting_error(name@, v),
            },
        },
{
    match env_optional_string(raw) {
        None => Ok(None),
        Some(v) => match parse_unsigned(v.as_str(), u64::MAX) {
            Some(n) => Ok(Some(n)),
            None => {
                let mut e = String::from_str("invalid ");
                e.append(name);
                e.append(": ");
                if parse_unsigned(v.as_str(), u64::MAX).is_none() && digits_only_or_plus(v.as_str()) {
                    e.append("number too large to fit in target type");
                } else {
                    e.append("invalid digit found in string");
                }
                Err(e)
            },
        },
    }
}

/// Whether the text is an unsigned number of any size.
#[verifier::loop_isolation(false)]
fn digits_only_or_plus(s: &str) -> (r: bool)
    ensures
        r == (unsigned_value(s@) is Some),
{
    let cs = crate::text::chars_of(s);
    let start: usize = if cs.len() > 0 && cs[0] == '+' {
        1
    } else {
        0
    };
    let ghost d = if s@.len() > 0 && s@[0] == '+' {
        s@.drop_first()
    } else {
        s@
    };
    assert(d =~= cs@.subrange(start as int, cs@.len() as int));
    if start >= cs.len() {
        return false;
    }
    let mut i: usize = start;
    while i < cs.len()
        invariant
            start <= i <= cs@.len(),
            d == cs@.subrange(start as int, cs@.len() as int),
            forall|j: int| start <= j < i ==> '0' <= #[trigger] cs@[j] <= '9',
        decreases cs@.len() - i,
    {
        if cs[i] < '0' || cs[i] > '9' {
            assert(d[i - start] == cs@[i as int]);
            return false;
        }
        i = i + 1;
    }
    assert forall|j: int| 0 <= j < d.len() implies '0' <= #[trigger] d[j] <= '9' by {
        assert(d[j] == cs@[start + j]);
    }
    true
}

/// The truth value a (trimmed, lower-cased) flag setting selects.
pub open spec fn flag_value(v: Seq<char>) -> Option<bool> {
    if v == "1"@ || v == "true"@ || v == "yes"@ || v == "on"@ {
        Some(true)
    } else if v == "0"@ || v == "false"@ || v == "no"@ || v == "off"@ {
        Some(false)
    } else {
        None
    }
}

/// A boolean setting: `fallback` when unset or blank, else one of
/// 1/true/yes/on or 0/false/no/off (any case), else an error.
pub open spec fn flag_setting(name: Seq<char>, raw: Option<Seq<char>>, fallback: bool) -> Result<bool, Seq<char>> {
    match optional_setting(raw) {
        None => Ok(fallback),
        Some(v) => match flag_value(ascii_lower(trim(v))) {
            Some(b) => Ok(b),
            None => Err("invalid boolean for "@ + name + ": "@ + v),
        },
    }
}

/// Parse a boolean setting named `name`.
pub fn env_flag(name: &str, raw: Option<&str>, fallback: bool) -> (r: Result<bool, String>)
    ensures
        match flag_setting(name@, opt_str_view(raw), fallback) {
            Ok(b) => r == Ok::<bool, String>(b),
            Err(m) => r is Err && r->Err_0@ == m,
        },
{
    match env_optional_string(raw) {
        None => Ok(fallback),
        Some(v) => {
            let t = trim_str(v.as_str());
            let l = crate::text::ascii_lower_str(t.as_str());
            let l = l.as_str();
            if str_eq(l, "1") || str_eq(l, "true") || str_eq(l, "yes") || str_eq(l, "on") {
                Ok(true)
            } else if str_eq(l, "0") || str_eq(l, "false") || str_eq(l, "no") || str_eq(l, "off") {
                Ok(false)
            } else {
                let mut e = String::from_str("invalid boolean for ");
                e.append(name);
                e.append(": ");
                e.append(v.as_str());
                Err(e)
            }
        },
    }
}


/// The raw values of the settings that configure admission (`None` when a
/// variable is unset).
pub struct AdmissionSettings {
    /// `MCP_PROBE_BUILD_PRODUCTION`
    pub probe_build_production: Option<String>,
    /// `MCP_BUILD_PRODUCTION`
    pub build_production: Option<String>,
    /// `MCP_PROBE_STARTUP_ADMISSION_MODE`
    pub mode: Option<String>,
    /// `MCP_PROBE_TEST_GATE_REQUIRED_PROFILE`
    pub required_profile: Option<String>,
    /// `MCP_PROBE_STARTUP_ADMISSION_BYPASS`
    pub bypass: Option<String>,
    /// `MCP_PROBE_STARTUP_ADMISSION_BYPASS_REASON`
    pub bypass_reason: Option<String>,
    /// `MCP_PROBE_STARTUP_ADMISSION_BYPASS_TTL_S`
    pub bypass_ttl_s: Option<String>,
    /// `MCP_PROBE_STARTUP_ADMISSION_ALLOW_PROD_BYPASS`
    pub allow_prod_bypass: Option<String>,
    /// `MCP_PROBE_TEST_GATE_FAST_ARTIFACT_PATH`
    pub fast_gate_artifact_path: Option<String>,
    /// `MCP_PROBE_TEST_GATE_STANDARD_ARTIFACT_PATH`
    pub standard_gate_artifact_path: Option<String>,
}

/// The admission configuration as plain values.
pub struct ConfigModel {
    pub mode: StartupAdmissionMode,
    pub required_profile: TestGateProfile,
    pub fast_gate_artifact_path: Seq<char>,
    pub standard_gate_artifact_path: Seq<char>,
    pub bypass: bool,
    pub bypass_reason: Option<Seq<char>>,
    pub bypass_ttl_s: Option<u64>,
    pub production_mode: bool,
    pub allow_production_bypass: bool,
}

/// The plain values of a configuration.
pub open spec fn config_view(c: StartupAdmissionConfig) -> ConfigModel {
    ConfigModel {
        mode: c.mode,
        required_profile: c.required_profile,
        fast_gate_artifact_path: c.fast_gate_artifact_path@,
        standard_gate_artifact_path: c.standard_gate_artifact_path@,
        bypass: c.bypass,
        bypass_reason: opt_view(c.bypass_reason),
        bypass_ttl_s: c.bypass_ttl_s,
        production_mode: c.production_mode,
        allow_production_bypass: c.allow_production_bypass,
    }
}

/// A setting's raw value, or `fallback` when unset.
pub open spec fn setting_or(raw: Option<String>, fallback: Seq<char>) -> Seq<char> {
    match raw {
        Some(v) => v@,
        None => fallback,
    }
}

/// The mode setting parsed, or its error.
pub open spec fn parsed_mode(v: Seq<char>) -> Result<StartupAdmissionMode, Seq<char>> {
    match mode_from_setting(ascii_lower(trim(v))) {
        Some(m) => Ok(m),
        None => Err(
            "Unsupported MCP_PROBE_STARTUP_ADMISSION_MODE="@ + debug_quoted(ascii_lower(trim(v)))
                + "; use off, warn, or strict."@,
        ),
    }
}

/// The profile setting parsed, or its error.
pub open spec fn parsed_profile(v: Seq<char>) -> Result<TestGateProfile, Seq<char>> {
    match profile_from_setting(ascii_lower(trim(v))) {
        Some(p) => Ok(p),
        None => Err(
            "Unsupported MCP_PROBE_TEST_GATE_REQUIRED_PROFILE="@ + debug_quoted(
                ascii_lower(trim(v)),
            ) + "; use fast or standard."@,
        ),
    }
}

/// The bypass TTL setting parsed, or its error.
pub open spec fn parsed_ttl(raw: Option<String>) -> Result<Option<u64>, Seq<char>> {
    match optional_setting(opt_view(raw)) {
        None => Ok(None),
        Some(v) => match unsigned_at_most(v, u64::MAX as nat) {
            Some(n) => Ok(Some(n as u64)),
            None => Err(u64_setting_error("MCP_PROBE_STARTUP_ADMISSION_BYPASS_TTL_S"@, v)),
        },
    }
}

/// The configuration that the settings give, or the first error: settings
/// are read in order, then production and bypass rules are checked.
pub open spec fn admission_config(s: AdmissionSettings) -> Result<ConfigModel, Seq<char>> {
    match flag_setting("MCP_BUILD_PRODUCTION"@, opt_view(s.build_production), false) {
        Err(e) => Err(e),
        Ok(global) => match flag_setting(
            "MCP_PROBE_BUILD_PRODUCTION"@,
            opt_view(s.probe_build_production),
            global,
        ) {
            Err(e) => Err(e),
            Ok(production) => match parsed_mode(
                setting_or(s.mode, if production { "strict"@ } else { "warn"@ }),
            ) {
                Err(e) => Err(e),
                Ok(mode) => match parsed_profile(
                    setting_or(
                        s.required_profile,
                        if production { "standard"@ } else { "fast"@ },
                    ),
                ) {
                    Err(e) => Err(e),
                    Ok(profile) => match flag_setting(
                        "MCP_PROBE_STARTUP_ADMISSION_BYPASS"@,
                        opt_view(s.bypass),
                        false,
                    ) {
                        Err(e) => Err(e),
                        Ok(bypass) => {
                            let reason = optional_setting(opt_view(s.bypass_reason));
                            match parsed_ttl(s.bypass_ttl_s) {
                                Err(e) => Err(e),
                                Ok(ttl) => match flag_setting(
                                    "MCP_PROBE_STARTUP_ADMISSION_ALLOW_PROD_BYPASS"@,
                                    opt_view(s.allow_prod_bypass),
                                    false,
                                ) {
                                    Err(e) => Err(e),
                                    Ok(allow) => if production && mode
                                        == StartupAdmissionMode::Off {
                                        Err(
                                            "MCP_PROBE_STARTUP_ADMISSION_MODE=off is not allowed when MCP_PROBE_BUILD_PRODUCTION=1."@,
                                        )
                                    } else if bypass && reason is None {
                                        Err(
                                            "MCP_PROBE_STARTUP_ADMISSION_BYPASS requires MCP_PROBE_STARTUP_ADMISSION_BYPASS_REASON."@,
                                        )
                                    } else if bypass && (ttl is None || ttl == Some(0u64)) {
                                        Err(
                                            "MCP_PROBE_STARTUP_ADMISSION_BYPASS requires MCP_PROBE_STARTUP_ADMISSION_BYPASS_TTL_S>0."@,
                                        )
                                    } else if bypass && production && !allow {
                                        Err(
                                            "Production bypass requires MCP_PROBE_STARTUP_ADMISSION_ALLOW_PROD_BYPASS=1."@,
                                        )
                                    } else {
                                        Ok(
                                            ConfigModel {
                                                mode,
                                                required_profile: profile,
                                                fast_gate_artifact_path: setting_or(
                                                    s.fast_gate_artifact_path,
                                                    "data/test-gates/mcp-probe/fast.json"@,
                                                ),
                                                standard_gate_artifact_path: setting_or(
                                                    s.standard_gate_artifact_path,
                                                    "data/test-gates/mcp-probe/standard.json"@,
                                                ),
                                                bypass,
                                                bypass_reason: reason,
                                                bypass_ttl_s: ttl,
                                                production_mode: production,
                                                allow_production_bypass: allow,
                                            },
                                        )
                                    },
                                },
                            }
                        },
                    },
                },
            },
        },
    }
}

fn opt_as_str(o: &Option<String>) -> (r: Option<&str>)
    ensures
        opt_str_view(r) == opt_view(*o),
{
    match o {
        Some(s) => Some(s.as_str()),
        None => None,
    }
}

fn setting_or_exec(raw: &Option<String>, fallback: &str) -> (r: String)
    ensures
        r@ == setting_or(*raw, fallback@),
{
    match raw {
        Some(v) => v.clone(),
        None => String::from_str(fallback),
    }
}

/// Load the start-up admission configuration from the raw settings.
pub fn load_startup_admission_config(settings: &AdmissionSettings) -> (r: Result<
    StartupAdmissionConfig,
    String,
>)
    ensures
        match admission_config(*settings) {
            Ok(c) => r is Ok && config_view(r->Ok_0) == c,
            Err(e) => r is Err && r->Err_0@ == e,
        },
{
    let global = env_flag("MCP_BUILD_PRODUCTION", opt_as_str(&settings.build_production), false)?;
    let production_mode = env_flag(
        "MCP_PROBE_BUILD_PRODUCTION",
        opt_as_str(&settings.probe_build_production),
        global,
    )?;
    let mode_default = if production_mode {
        "strict"
    } else {
        "warn"
    };
    let mode = parse_startup_admission_mode(setting_or_exec(&settings.mode, mode_default).as_str())?;
    let profile_default = if production_mode {
        "standard"
    } else {
        "fast"
    };
    let required_profile = parse_test_gate_profile(
        setting_or_exec(&settings.required_profile, profile_default).as_str(),
    )?;
    let bypass = env_flag(
        "MCP_PROBE_STARTUP_ADMISSION_BYPASS",
        opt_as_str(&settings.bypass),
        false,
    )?;
    let bypass_reason = env_optional_string(opt_as_str(&settings.bypass_reason));
    let bypass_ttl_s = env_optional_u64(
        "MCP_PROBE_STARTUP_ADMISSION_BYPASS_TTL_S",
        opt_as_str(&settings.bypass_ttl_s),
    )?;
    let allow_production_bypass = env_flag(
        "MCP_PROBE_STARTUP_ADMISSION_ALLOW_PROD_BYPASS",
        opt_as_str(&settings.allow_prod_bypass),
        false,
    )?;
    if production_mode && mode == StartupAdmissionMode::Off {
        return Err(
            String::from_str(
                "MCP_PROBE_STARTUP_ADMISSION_MODE=off is not allowed when MCP_PROBE_BUILD_PRODUCTION=1.",
            ),
        );
    }
    if bypass {
        if bypass_reason.is_none() {
            return Err(
                String::from_str(
                    "MCP_PROBE_STARTUP_ADMISSION_BYPASS requires MCP_PROBE_STARTUP_ADMISSION_BYPASS_REASON.",
                ),
            );
        }
        let ttl: u64 = match bypass_ttl_s {
            Some(t) => t,
            None => 0,
        };
        if ttl == 0 {
            return Err(
                String::from_str(
                    "MCP_PROBE_STARTUP_ADMISSION_BYPASS requires MCP_PROBE_STARTUP_ADMISSION_BYPASS_TTL_S>0.",
                ),
            );
        }
        if production_mode && !allow_production_bypass {
            return Err(
                String::from_str(
                    "Production bypass requires MCP_PROBE_STARTUP_ADMISSION_ALLOW_PROD_BYPASS=1.",
                ),
            );
        }
    }
    Ok(
        StartupAdmissionConfig {
            mode,
            required_profile,
            fast_gate_artifact_path: setting_or_exec(
                &settings.fast_gate_artifact_path,
                "data/test-gates/mcp-probe/fast.json",
            ),
            standard_gate_artifact_path: setting_or_exec(
                &settings.standard_gate_artifact_path,
                "data/test-gates/mcp-probe/standard.json",
            ),
            bypass,
            bypass_reason,
            bypass_ttl_s,
            production_mode,
            allow_production_bypass,
        },
    )
}


/// The build a running binary reports about itself.
pub struct RuntimeBuild {
    pub component: String,
    pub build_identity: String,
    pub source_fingerprint: String,
}

/// The admission artifact record.
pub struct GateArtifact {
    pub schema_version: u32,
    pub component: String,
    pub gate_level: String,
    pub status: String,
    pub build_identity: String,
    pub source_fingerprint: String,
    pub command_manifest_digest: String,
    pub expires_at: String,
}

/// What was observed of the artifact file's modification time.
pub enum GateStamp {
    /// The file's metadata could not be read (with the error text).
    Unreadable(String),
    /// The metadata has no modification time (with the error text).
    NoModifiedTime(String),
    /// Modification time, in nanoseconds since the Unix epoch.
    Modified(i128),
}

/// What was read of a JSON admission artifact.
pub enum GateContents {
    /// The file could not be read (with the error text).
    Unreadable(String),
    /// The file is not a admission artifact (with the parser's error text).
    Invalid(String),
    Parsed(GateArtifact),
}

/// What start-up observed on disk for admission.
pub struct AdmissionFacts {
    pub gate_stamp: GateStamp,
    /// The executable's modification time (ns since the epoch), or the error text.
    pub exe_modified: Result<i128, String>,
    /// How the executable path is displayed.
    pub executable_display: String,
    /// The admission artifact, read when the artifact path names a JSON file.
    pub gate_contents: Option<GateContents>,
}

/// The path a profile's admission artifact lives at.
pub open spec fn gate_path_of(c: StartupAdmissionConfig) -> Seq<char> {
    match c.required_profile {
        TestGateProfile::Fast => c.fast_gate_artifact_path@,
        TestGateProfile::Standard => c.standard_gate_artifact_path@,
    }
}

/// The path of the required admission artifact.
pub fn required_gate_path(config: &StartupAdmissionConfig) -> (r: String)
    ensures
        r@ == gate_path_of(*config),
{
    match config.required_profile {
        TestGateProfile::Fast => config.fast_gate_artifact_path.clone(),
        TestGateProfile::Standard => config.standard_gate_artifact_path.clone(),
    }
}

/// The outcome a failed check has in a mode.
pub open spec fn failed_outcome(mode: StartupAdmissionMode) -> AdmissionOutcome {
    match mode {
        StartupAdmissionMode::Strict => AdmissionOutcome::Rejected,
        StartupAdmissionMode::Warn => AdmissionOutcome::Warning,
        StartupAdmissionMode::Off => AdmissionOutcome::Disabled,
    }
}

/// A verdict as plain values: outcome, reason code, detail, override.
pub struct Verdict {
    pub outcome: AdmissionOutcome,
    pub reason_code: Option<Seq<char>>,
    pub detail: Seq<char>,
    pub override_active: bool,
}

/// The verdict of a failed check.
pub open spec fn failed(mode: StartupAdmissionMode, code: Seq<char>, detail: Seq<char>) -> Verdict {
    Verdict { outcome: failed_outcome(mode), reason_code: Some(code), detail, override_active: false }
}

/// Build the evaluation for a failed check: a warning in warn mode, a
/// rejection in strict mode.
pub fn warning_or_reject(
    mode: StartupAdmissionMode,
    profile: TestGateProfile,
    gate_path: String,
    reason_code: &str,
    detail: String,
) -> (r: AdmissionEvaluation)
    ensures
        verdict_of(r) == failed(mode, reason_code@, detail@),
        r.profile == profile,
        r.gate_path@ == gate_path@,
{
    let outcome = match mode {
        StartupAdmissionMode::Strict => AdmissionOutcome::Rejected,
        StartupAdmissionMode::Warn => AdmissionOutcome::Warning,
        StartupAdmissionMode::Off => AdmissionOutcome::Disabled,
    };
    AdmissionEvaluation {
        outcome,
        profile,
        gate_path,
        reason_code: Some(String::from_str(reason_code)),
        detail,
        override_active: false,
    }
}

/// The plain verdict of an evaluation.
pub open spec fn verdict_of(e: AdmissionEvaluation) -> Verdict {
    Verdict {
        outcome: e.outcome,
        reason_code: opt_view(e.reason_code),
        detail: e.detail@,
        override_active: e.override_active,
    }
}

/// The extension of a path's file name, as `Path::extension` gives it.
pub uninterp spec fn path_extension(p: Seq<char>) -> Option<Seq<char>>;

/// Trusted: `Path::new(p).extension()` converted to text (`None` when there
/// is no extension or it is not valid UTF-8). The result is a function of
/// the path and is named `path_extension`.
#[verifier::external_body]
fn extension_of(p: &str) -> (r: Option<String>)
    ensures
        opt_view(r) == path_extension(p@),
{
    std::path::Path::new(p).extension().and_then(|e| e.to_str()).map(|e| e.to_string())
}

/// The artifact file is JSON: its extension is `json` in any ASCII case.
pub open spec fn is_json_path(p: Seq<char>) -> bool {
    match path_extension(p) {
        Some(e) => ascii_lower(e) == "json"@,
        None => false,
    }
}

/// Whether the artifact path names a JSON artifact.
pub fn is_json_artifact(path: &str) -> (r: bool)
    ensures
        r == is_json_path(path@),
{
    match extension_of(path) {
        Some(e) => {
            proof {
                reveal_strlit("json");
                assert(ascii_lower("json"@) =~= "json"@);
            }
            crate::auth::eq_ignore_ascii_case(e.as_str(), "json")
        },
        None => false,
    }
}

/// The artifact is stale when it was modified before the executable.
pub open spec fn stale(gate_modified: int, exe_modified: int) -> bool {
    gate_modified < exe_modified
}

/// Whether the admission artifact is older than the executable.
pub fn is_stale(gate_modified: i128, exe_modified: i128) -> (r: bool)
    ensures
        r == stale(gate_modified as int, exe_modified as int),
{
    gate_modified < exe_modified
}

/// An RFC 3339 timestamp as nanoseconds since the Unix epoch, as the
/// `time` crate parses it, or its error text.
pub uninterp spec fn rfc3339_nanos(s: Seq<char>) -> Result<int, Seq<char>>;

/// Trusted: `time::OffsetDateTime::parse(s, &Rfc3339)` and
/// `unix_timestamp_nanos`, or the parse error's text. The result is a
/// function of the text and is named `rfc3339_nanos`.
#[verifier::external_body]
fn parse_rfc3339_nanos(s: &str) -> (r: Result<i128, String>)
    ensures
        match r {
            Ok(n) => rfc3339_nanos(s@) == Ok::<int, Seq<char>>(n as int),
            Err(e) => rfc3339_nanos(s@) == Err::<int, Seq<char>>(e@),
        },
{
    match time::OffsetDateTime::parse(s, &time::format_description::well_known::Rfc3339) {
        Ok(t) => Ok(t.unix_timestamp_nanos()),
        Err(e) => Err(e.to_string()),
    }
}

/// The checks on a JSON admission artifact, in order; `None` when all pass.
pub open spec fn artifact_failure(
    mode: StartupAdmissionMode,
    profile: TestGateProfile,
    rt: RuntimeBuild,
    a: GateArtifact,
    now: int,
) -> Option<Verdict> {
    if a.schema_version != 1 {
        Some(
            failed(
                mode,
                CODE_STATUS_INVALID@,
                "unsupported gate artifact schema_version "@ + decimal(a.schema_version as nat)
                    + "; expected 1"@,
            ),
        )
    } else if a.component@ != rt.component@ {
        Some(
            failed(
                mode,
                CODE_COMPONENT_MISMATCH@,
                "gate component mismatch: expected "@ + rt.component@ + ", found "@ + a.component@,
            ),
        )
    } else if a.gate_level@ != gate_label(profile) {
        Some(
            failed(
                mode,
                CODE_LEVEL_MISMATCH@,
                "gate level mismatch: expected "@ + gate_label(profile) + ", found "@
                    + a.gate_level@,
            ),
        )
    } else if a.status@ != "pass"@ {
        Some(failed(mode, CODE_STATUS_INVALID@, "gate status is not pass: "@ + a.status@))
    } else if a.build_identity@ != rt.build_identity@ {
        Some(
            failed(
                mode,
                CODE_BUILD_MISMATCH@,
                "gate build_identity mismatch: expected "@ + rt.build_identity@ + ", found "@
                    + a.build_identity@,
            ),
        )
    } else if a.source_fingerprint@ != rt.source_fingerprint@ {
        Some(
            failed(
                mode,
                CODE_SOURCE_MISMATCH@,
                "gate source_fingerprint mismatch: expected "@ + rt.source_fingerprint@
                    + ", found "@ + a.source_fingerprint@,
            ),
        )
    } else if !starts_with(a.command_manifest_digest@, "sha256:"@) {
        Some(
            failed(
                mode,
                CODE_MANIFEST_MISMATCH@,
                "gate command_manifest_digest must start with sha256:"@,
            ),
        )
    } else {
        match rfc3339_nanos(a.expires_at@) {
            Err(e) => Some(
                failed(
                    mode,
                    CODE_TIMESTAMP_INVALID@,
                    "gate expires_at is not valid RFC3339: "@ + e,
                ),
            ),
            Ok(t) => if now > t {
                Some(failed(mode, CODE_EXPIRED@, "gate artifact expired at "@ + a.expires_at@))
            } else {
                None
            },
        }
    }
}

/// The admission verdict reached from the configuration, the runtime build,
/// what was observed on disk and the current time (ns since the epoch).
pub open spec fn admission_verdict(
    c: StartupAdmissionConfig,
    rt: RuntimeBuild,
    f: AdmissionFacts,
    now: int,
) -> Verdict {
    let mode = c.mode;
    if mode == StartupAdmissionMode::Off {
        Verdict {
            outcome: AdmissionOutcome::Disabled,
            reason_code: Some(CODE_DISABLED@),
            detail: "startup admission disabled by configuration"@,
            override_active: false,
        }
    } else if c.bypass {
        let ttl: u64 = match c.bypass_ttl_s {
            Some(t) => t,
            None => 0,
        };
        let reason = match c.bypass_reason {
            Some(r) => r@,
            None => "unspecified"@,
        };
        Verdict {
            outcome: AdmissionOutcome::Bypassed,
            reason_code: Some(CODE_OVERRIDE@),
            detail: "startup admission bypass active (ttl_s="@ + decimal(ttl as nat) + ", reason="@
                + reason + ")"@,
            override_active: true,
        }
    } else if trim(rt.build_identity@).len() == 0 || trim(rt.source_fingerprint@).len() == 0 {
        failed(mode, CODE_PROVENANCE_UNAVAILABLE@, "runtime provenance unavailable"@)
    } else {
        match f.gate_stamp {
            GateStamp::Unreadable(e) => failed(
                mode,
                CODE_MISSING@,
                "required gate artifact missing or unreadable: "@ + e@,
            ),
            GateStamp::NoModifiedTime(e) => failed(
                mode,
                CODE_TIMESTAMP_INVALID@,
                "required gate artifact has no readable modified time: "@ + e@,
            ),
            GateStamp::Modified(gate_time) => match f.exe_modified {
                Err(e) => failed(
                    mode,
                    CODE_TIMESTAMP_INVALID@,
                    "failed to read executable modified time: "@ + e@,
                ),
                Ok(exe_time) => {
                    let json_failure = if is_json_path(gate_path_of(c)) {
                        match f.gate_contents {
                            None => Some(
                                failed(
                                    mode,
                                    CODE_MISSING@,
                                    "failed to read gate artifact JSON: "@,
                                ),
                            ),
                            Some(GateContents::Unreadable(e)) => Some(
                                failed(
                                    mode,
                                    CODE_MISSING@,
                                    "failed to read gate artifact JSON: "@ + e@,
                                ),
                            ),
                            Some(GateContents::Invalid(e)) => Some(
                                failed(
                                    mode,
                                    CODE_STATUS_INVALID@,
                                    "invalid gate artifact JSON payload: "@ + e@,
                                ),
                            ),
                            Some(GateContents::Parsed(a)) => artifact_failure(
                                mode,
                                c.required_profile,
                                rt,
                                a,
                                now,
                            ),
                        }
                    } else {
                        None
                    };
                    match json_failure {
                        Some(v) => v,
                        None => if stale(gate_time as int, exe_time as int) {
                            failed(
                                mode,
                                CODE_EXPIRED@,
                                "required gate artifact is older than executable ("@
                                    + f.executable_display@ + ")"@,
                            )
                        } else {
                            Verdict {
                                outcome: AdmissionOutcome::Passed,
                                reason_code: None,
                                detail: "startup admission checks passed"@,
                                override_active: false,
                            }
                        },
                    }
                },
            },
        }
    }
}

fn check_artifact(
    mode: StartupAdmissionMode,
    profile: TestGateProfile,
    runtime: &RuntimeBuild,
    a: &GateArtifact,
    gate_path: &String,
    now: i128,
) -> (r: Option<AdmissionEvaluation>)
    ensures
        match artifact_failure(mode, profile, *runtime, *a, now as int) {
            Some(v) => r is Some && verdict_of(r->0) == v && r->0.profile == profile
                && r->0.gate_path@ == gate_path@,
            None => r is None,
        },
{
    let gp = gate_path.clone();
    if a.schema_version != 1 {
        let mut d = String::from_str("unsupported gate artifact schema_version ");
        d.append(crate::text::fmt_u64(a.schema_version as u64).as_str());
        d.append("; expected 1");
        return Some(warning_or_reject(mode, profile, gp, CODE_STATUS_INVALID, d));
    }
    if !str_eq(a.component.as_str(), runtime.component.as_str()) {
        let mut d = String::from_str("gate component mismatch: expected ");
        d.append(runtime.component.as_str());
        d.append(", found ");
        d.append(a.component.as_str());
        return Some(warning_or_reject(mode, profile, gp, CODE_COMPONENT_MISMATCH, d));
    }
    if !str_eq(a.gate_level.as_str(), profile.label()) {
        let mut d = String::from_str("gate level mismatch: expected ");
        d.append(profile.label());
        d.append(", found ");
        d.append(a.gate_level.as_str());
        return Some(warning_or_reject(mode, profile, gp, CODE_LEVEL_MISMATCH, d));
    }
    if !str_eq(a.status.as_str(), "pass") {
        let mut d = String::from_str("gate status is not pass: ");
        d.append(a.status.as_str());
        return Some(warning_or_reject(mode, profile, gp, CODE_STATUS_INVALID, d));
    }
    if !str_eq(a.build_identity.as_str(), runtime.build_identity.as_str()) {
        let mut d = String::from_str("gate build_identity mismatch: expected ");
        d.append(runtime.build_identity.as_str());
        d.append(", found ");
        d.append(a.build_identity.as_str());
        return Some(warning_or_reject(mode, profile, gp, CODE_BUILD_MISMATCH, d));
    }
    if !str_eq(a.source_fingerprint.as_str(), runtime.source_fingerprint.as_str()) {
        let mut d = String::from_str("gate source_fingerprint mismatch: expected ");
        d.append(runtime.source_fingerprint.as_str());
        d.append(", found ");
        d.append(a.source_fingerprint.as_str());
        return Some(warning_or_reject(mode, profile, gp, CODE_SOURCE_MISMATCH, d));
    }
    if !str_starts_with(a.command_manifest_digest.as_str(), "sha256:") {
        return Some(
            warning_or_reject(
                mode,
                profile,
                gp,
                CODE_MANIFEST_MISMATCH,
                String::from_str("gate command_manifest_digest must start with sha256:"),
            ),
        );
    }
    match parse_rfc3339_nanos(a.expires_at.as_str()) {
        Err(e) => {
            let mut d = String::from_str("gate expires_at is not valid RFC3339: ");
            d.append(e.as_str());
            Some(warning_or_reject(mode, profile, gp, CODE_TIMESTAMP_INVALID, d))
        },
        Ok(t) => {
            if now > t {
                let mut d = String::from_str("gate artifact expired at ");
                d.append(a.expires_at.as_str());
                Some(warning_or_reject(mode, profile, gp, CODE_EXPIRED, d))
            } else {
                None
            }
        },
    }
}

/// Evaluate start-up admission for the current binary against the required
/// admission artifact, from what was observed on disk and the current time.
pub fn evaluate_startup_admission(
    config: &StartupAdmissionConfig,
    runtime: &RuntimeBuild,
    facts: &AdmissionFacts,
    now: i128,
) -> (r: AdmissionEvaluation)
    ensures
        verdict_of(r) == admission_verdict(*config, *runtime, *facts, now as int),
        r.profile == config.required_profile,
        r.gate_path@ == gate_path_of(*config),
{
    let gate_path = required_gate_path(config);
    let profile = config.required_profile;
    let mode = config.mode;
    if mode == StartupAdmissionMode::Off {
        return AdmissionEvaluation {
            outcome: AdmissionOutcome::Disabled,
            profile,
            gate_path,
            reason_code: Some(String::from_str(CODE_DISABLED)),
            detail: String::from_str("startup admission disabled by configuration"),
            override_active: false,
        };
    }
    if config.bypass {
        let ttl: u64 = match config.bypass_ttl_s {
            Some(t) => t,
            None => 0,
        };
        let mut d = String::from_str("startup admission bypass active (ttl_s=");
        d.append(crate::text::fmt_u64(ttl).as_str());
        d.append(", reason=");
        match &config.bypass_reason {
            Some(r) => d.append(r.as_str()),
            None => d.append("unspecified"),
        }
        d.append(")");
        return AdmissionEvaluation {
            outcome: AdmissionOutcome::Bypassed,
            profile,
            gate_path,
            reason_code: Some(String::from_str(CODE_OVERRIDE)),
            detail: d,
            override_active: true,
        };
    }
    if is_blank_str(runtime.build_identity.as_str()) || is_blank_str(
        runtime.source_fingerprint.as_str(),
    ) {
        return warning_or_reject(
            mode,
            profile,
            gate_path,
            CODE_PROVENANCE_UNAVAILABLE,
            String::from_str("runtime provenance unavailable"),
        );
    }
    let gate_time: i128 = match &facts.gate_stamp {
        GateStamp::Unreadable(e) => {
            let mut d = String::from_str("required gate artifact missing or unreadable: ");
            d.append(e.as_str());
            return warning_or_reject(mode, profile, gate_path, CODE_MISSING, d);
        },
        GateStamp::NoModifiedTime(e) => {
            let mut d = String::from_str("required gate artifact has no readable modified time: ");
            d.append(e.as_str());
            return warning_or_reject(mode, profile, gate_path, CODE_TIMESTAMP_INVALID, d);
        },
        GateStamp::Modified(t) => *t,
    };
    let exe_time: i128 = match &facts.exe_modified {
        Err(e) => {
            let mut d = String::from_str("failed to read executable modified time: ");
            d.append(e.as_str());
            return warning_or_reject(mode, profile, gate_path, CODE_TIMESTAMP_INVALID, d);
        },
        Ok(t) => *t,
    };
    if is_json_artifact(gate_path.as_str()) {
        match &facts.gate_contents {
            None => {
                return warning_or_reject(
                    mode,
                    profile,
                    gate_path,
                    CODE_MISSING,
                    String::from_str("failed to read gate artifact JSON: "),
                );
            },
            Some(GateContents::Unreadable(e)) => {
                let mut d = String::from_str("failed to read gate artifact JSON: ");
                d.append(e.as_str());
                return warning_or_reject(mode, profile, gate_path, CODE_MISSING, d);
            },
            Some(GateContents::Invalid(e)) => {
                let mut d = String::from_str("invalid gate artifact JSON payload: ");
                d.append(e.as_str());
                return warning_or_reject(mode, profile, gate_path, CODE_STATUS_INVALID, d);
            },
            Some(GateContents::Parsed(a)) => {
                match check_artifact(mode, profile, runtime, a, &gate_path, now) {
                    Some(v) => {
                        return v;
                    },
                    None => {},
                }
            },
        }
    }
    if is_stale(gate_time, exe_time) {
        let mut d = String::from_str("required gate artifact is older than executable (");
        d.append(facts.executable_display.as_str());
        d.append(")");
        return warning_or_reject(mode, profile, gate_path, CODE_EXPIRED, d);
    }
    AdmissionEvaluation {
        outcome: AdmissionOutcome::Passed,
        profile,
        gate_path,
        reason_code: None,
        detail: String::from_str("startup admission checks passed"),
        override_active: false,
    }
}

/// A parsed JSON admission artifact whose status is not exactly `pass`
/// never lets the binary through: the evaluation is never `Passed`. When
/// admission is on and not bypassed, the runtime provenance and file times
/// are readable, and the artifact's schema version, component and gate
/// level are right, the run is rejected (strict mode) or warned (warn mode)
/// with reason `admission.gate.status_invalid` and the detail
/// `gate status is not pass: <status>`.
pub proof fn lemma_failed_gate_status_never_admits(
    c: StartupAdmissionConfig,
    rt: RuntimeBuild,
    f: AdmissionFacts,
    now: int,
    a: GateArtifact,
)
    requires
        is_json_path(gate_path_of(c)),
        f.gate_contents == Some(GateContents::Parsed(a)),
        a.status@ != "pass"@,
    ensures
        admission_verdict(c, rt, f, now).outcome != AdmissionOutcome::Passed,
        ({
            &&& c.mode != StartupAdmissionMode::Off
            &&& !c.bypass
            &&& trim(rt.build_identity@).len() > 0
            &&& trim(rt.source_fingerprint@).len() > 0
            &&& f.gate_stamp is Modified
            &&& f.exe_modified is Ok
            &&& a.schema_version == 1
            &&& a.component@ == rt.component@
            &&& a.gate_level@ == gate_label(c.required_profile)
        }) ==> {
            let v = admission_verdict(c, rt, f, now);
            &&& v.outcome == (if c.mode == StartupAdmissionMode::Strict {
                AdmissionOutcome::Rejected
            } else {
                AdmissionOutcome::Warning
            })
            &&& v.reason_code == Some("admission.gate.status_invalid"@)
            &&& v.detail == "gate status is not pass: "@ + a.status@
        },
{
    assert(artifact_failure(c.mode, c.required_profile, rt, a, now) is Some);
}

/// Admission passes only when every check held: admission is on and not
/// bypassed, the runtime provenance is known, the artifact and executable
/// times are readable and the artifact is not older than the executable;
/// and for a JSON artifact, it has schema version 1, the runtime's
/// component, the required gate level, status `pass`, the runtime's build
/// identity and source fingerprint, a `sha256:` manifest digest, and an
/// RFC 3339 expiry not yet passed.
pub proof fn lemma_admission_passes_only_when_checks_hold(
    c: StartupAdmissionConfig,
    rt: RuntimeBuild,
    f: AdmissionFacts,
    now: int,
)
    requires
        admission_verdict(c, rt, f, now).outcome == AdmissionOutcome::Passed,
    ensures
        c.mode != StartupAdmissionMode::Off,
        !c.bypass,
        trim(rt.build_identity@).len() > 0 && trim(rt.source_fingerprint@).len() > 0,
        match (f.gate_stamp, f.exe_modified) {
            (GateStamp::Modified(g), Ok(e)) => !stale(g as int, e as int),
            _ => false,
        },
        is_json_path(gate_path_of(c)) ==> match f.gate_contents {
            Some(GateContents::Parsed(a)) => {
            &&& a.schema_version == 1
            &&& a.component@ == rt.component@
            &&& a.gate_level@ == gate_label(c.required_profile)
            &&& a.status@ == "pass"@
            &&& a.build_identity@ == rt.build_identity@
            &&& a.source_fingerprint@ == rt.source_fingerprint@
            &&& starts_with(a.command_manifest_digest@, "sha256:"@)
            &&& match rfc3339_nanos(a.expires_at@) {
                Ok(t) => now <= t,
                Err(_) => false,
            }
            },
            _ => false,
        },
{
    assert(failed_outcome(c.mode) != AdmissionOutcome::Passed || c.mode == StartupAdmissionMode::Off);
}

} // verus!
