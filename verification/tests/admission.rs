use mcp_probe::admission::{
    evaluate_startup_admission, load_startup_admission_config, AdmissionFacts, AdmissionOutcome,
    AdmissionSettings, GateArtifact, GateContents, GateStamp, RuntimeBuild, StartupAdmissionConfig,
    StartupAdmissionMode, TestGateProfile, CODE_EXPIRED, CODE_MISSING,
};

fn base_config(mode: StartupAdmissionMode) -> StartupAdmissionConfig {
    StartupAdmissionConfig {
        mode,
        required_profile: TestGateProfile::Fast,
        fast_gate_artifact_path: "/gates/fast.json".to_string(),
        standard_gate_artifact_path: "/gates/standard.json".to_string(),
        bypass: false,
        bypass_reason: None,
        bypass_ttl_s: None,
        production_mode: false,
        allow_production_bypass: false,
    }
}

fn runtime() -> RuntimeBuild {
    RuntimeBuild {
        component: "mcp-probe".to_string(),
        build_identity: "build-1".to_string(),
        source_fingerprint: "src-1".to_string(),
    }
}

fn artifact() -> GateArtifact {
    GateArtifact {
        schema_version: 1,
        component: "mcp-probe".to_string(),
        gate_level: "fast".to_string(),
        status: "pass".to_string(),
        build_identity: "build-1".to_string(),
        source_fingerprint: "src-1".to_string(),
        command_manifest_digest: "sha256:test".to_string(),
        expires_at: "2030-01-01T00:00:00Z".to_string(),
    }
}

fn facts(gate: GateStamp, exe: i128, contents: Option<GateContents>) -> AdmissionFacts {
    AdmissionFacts {
        gate_stamp: gate,
        exe_modified: Ok(exe),
        executable_display: "/bin/mcp-probe".to_string(),
        gate_contents: contents,
    }
}

const NOW: i128 = 1_700_000_000_000_000_000;

#[test]
fn admission_warn_mode_allows_missing_gate() {
    let result = evaluate_startup_admission(
        &base_config(StartupAdmissionMode::Warn),
        &runtime(),
        &facts(GateStamp::Unreadable("not found".into()), 1, None),
        NOW,
    );
    assert_eq!(result.outcome, AdmissionOutcome::Warning);
    assert_eq!(result.reason_code.as_deref(), Some(CODE_MISSING));
}

#[test]
fn admission_strict_rejects_missing_gate() {
    let result = evaluate_startup_admission(
        &base_config(StartupAdmissionMode::Strict),
        &runtime(),
        &facts(GateStamp::Unreadable("not found".into()), 1, None),
        NOW,
    );
    assert_eq!(result.outcome, AdmissionOutcome::Rejected);
}

#[test]
fn admission_strict_passes_with_valid_gate_json() {
    let result = evaluate_startup_admission(
        &base_config(StartupAdmissionMode::Strict),
        &runtime(),
        &facts(GateStamp::Modified(20), 10, Some(GateContents::Parsed(artifact()))),
        NOW,
    );
    assert_eq!(result.outcome, AdmissionOutcome::Passed);
    assert_eq!(result.detail, "startup admission checks passed");
}

#[test]
fn admission_strict_rejects_stale_gate() {
    let result = evaluate_startup_admission(
        &base_config(StartupAdmissionMode::Strict),
        &runtime(),
        &facts(GateStamp::Modified(10), 20, Some(GateContents::Parsed(artifact()))),
        NOW,
    );
    assert_eq!(result.outcome, AdmissionOutcome::Rejected);
    assert_eq!(result.reason_code.as_deref(), Some(CODE_EXPIRED));
    assert_eq!(
        result.detail,
        "required gate artifact is older than executable (/bin/mcp-probe)"
    );
}

#[test]
fn admission_rejects_expired_and_mismatched_gates() {
    let mut expired = artifact();
    expired.expires_at = "2001-01-01T00:00:00Z".to_string();
    let result = evaluate_startup_admission(
        &base_config(StartupAdmissionMode::Strict),
        &runtime(),
        &facts(GateStamp::Modified(20), 10, Some(GateContents::Parsed(expired))),
        NOW,
    );
    assert_eq!(result.reason_code.as_deref(), Some(CODE_EXPIRED));
    assert_eq!(result.detail, "gate artifact expired at 2001-01-01T00:00:00Z");

    let mut other = artifact();
    other.gate_level = "standard".to_string();
    let result = evaluate_startup_admission(
        &base_config(StartupAdmissionMode::Warn),
        &runtime(),
        &facts(GateStamp::Modified(20), 10, Some(GateContents::Parsed(other))),
        NOW,
    );
    assert_eq!(result.outcome, AdmissionOutcome::Warning);
    assert_eq!(result.detail, "gate level mismatch: expected fast, found standard");
}

#[test]
fn admission_off_and_bypass_short_circuit() {
    let off = evaluate_startup_admission(
        &base_config(StartupAdmissionMode::Off),
        &runtime(),
        &facts(GateStamp::Unreadable("x".into()), 1, None),
        NOW,
    );
    assert_eq!(off.outcome, AdmissionOutcome::Disabled);
    let mut cfg = base_config(StartupAdmissionMode::Strict);
    cfg.bypass = true;
    cfg.bypass_ttl_s = Some(60);
    cfg.bypass_reason = Some("incident".to_string());
    let bypass = evaluate_startup_admission(
        &cfg,
        &runtime(),
        &facts(GateStamp::Unreadable("x".into()), 1, None),
        NOW,
    );
    assert_eq!(bypass.outcome, AdmissionOutcome::Bypassed);
    assert!(bypass.override_active);
    assert_eq!(
        bypass.detail,
        "startup admission bypass active (ttl_s=60, reason=incident)"
    );
}

fn settings() -> AdmissionSettings {
    AdmissionSettings {
        probe_build_production: None,
        build_production: None,
        mode: None,
        required_profile: None,
        bypass: None,
        bypass_reason: None,
        bypass_ttl_s: None,
        allow_prod_bypass: None,
        fast_gate_artifact_path: None,
        standard_gate_artifact_path: None,
    }
}

#[test]
fn admission_config_defaults_depend_on_production() {
    let c = load_startup_admission_config(&settings()).expect("defaults");
    assert_eq!(c.mode, StartupAdmissionMode::Warn);
    assert_eq!(c.required_profile, TestGateProfile::Fast);
    assert_eq!(c.fast_gate_artifact_path, "data/test-gates/mcp-probe/fast.json");
    let mut s = settings();
    s.build_production = Some("YES".to_string());
    let c = load_startup_admission_config(&s).expect("production");
    assert!(c.production_mode);
    assert_eq!(c.mode, StartupAdmissionMode::Strict);
    assert_eq!(c.required_profile, TestGateProfile::Standard);
}

#[test]
fn admission_config_rejects_unsafe_settings() {
    let mut s = settings();
    s.probe_build_production = Some("1".to_string());
    s.mode = Some("off".to_string());
    assert_eq!(
        load_startup_admission_config(&s).err().expect("off in production"),
        "MCP_PROBE_STARTUP_ADMISSION_MODE=off is not allowed when MCP_PROBE_BUILD_PRODUCTION=1."
    );
    let mut s = settings();
    s.bypass = Some("true".to_string());
    s.bypass_reason = Some("  ".to_string());
    assert_eq!(
        load_startup_admission_config(&s).err().expect("no reason"),
        "MCP_PROBE_STARTUP_ADMISSION_BYPASS requires MCP_PROBE_STARTUP_ADMISSION_BYPASS_REASON."
    );
    let mut s = settings();
    s.mode = Some("loud".to_string());
    assert_eq!(
        load_startup_admission_config(&s).err().expect("bad mode"),
        "Unsupported MCP_PROBE_STARTUP_ADMISSION_MODE=\"loud\"; use off, warn, or strict."
    );
    let mut s = settings();
    s.bypass_ttl_s = Some("ten".to_string());
    assert_eq!(
        load_startup_admission_config(&s).err().expect("bad ttl"),
        "invalid MCP_PROBE_STARTUP_ADMISSION_BYPASS_TTL_S: invalid digit found in string"
    );
    let mut s = settings();
    s.bypass = Some("maybe".to_string());
    assert_eq!(
        load_startup_admission_config(&s).err().expect("bad flag"),
        "invalid boolean for MCP_PROBE_STARTUP_ADMISSION_BYPASS: maybe"
    );
}
