use mcp_probe::startup::{resolve_stdio_log_path, should_echo_admission, should_run_server};

#[test]
fn explicit_http_smoke_command_stays_in_cli_mode_without_tty() {
    assert!(!should_run_server(&["http-smoke".to_string()], false));
}

#[test]
fn no_args_defaults_to_server_mode() {
    assert!(should_run_server(&[], false));
}

#[test]
fn explicit_server_mode_flags_are_respected() {
    assert!(should_run_server(&["server".to_string()], true));
    assert!(should_run_server(
        &["run".to_string(), "--stdio".to_string()],
        false
    ));
}

#[test]
fn stdio_command_selects_server_mode() {
    assert!(should_run_server(&["stdio".to_string()], true));
    assert!(!should_run_server(&["run".to_string(), "--transport".to_string()], true));
}

#[test]
fn stdio_log_path_follows_override_and_tty() {
    assert_eq!(resolve_stdio_log_path(Some("  "), false), None);
    assert_eq!(
        resolve_stdio_log_path(Some("/var/log/p.log"), true),
        Some("/var/log/p.log".to_string())
    );
    assert_eq!(resolve_stdio_log_path(None, true), None);
    assert_eq!(
        resolve_stdio_log_path(None, false),
        Some("/tmp/mcp-probe.log".to_string())
    );
}

#[test]
fn rejected_admission_is_always_echoed() {
    assert!(should_echo_admission(true, false, false));
    assert!(!should_echo_admission(true, false, true));
}
