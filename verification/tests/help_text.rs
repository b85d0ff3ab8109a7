use mcp_probe::help_text::{
    format_probe_handshake_example, format_probe_help_text, format_probe_run_examples,
    format_probe_run_examples_for, format_probe_script_example, list_probe_tools,
    ProbeRunExampleId,
};

#[test]
fn tool_list_includes_run_examples() {
    let tools = list_probe_tools();
    assert_eq!(tools.len(), 12);
    assert_eq!(tools[0].name, "probe_run");
    assert_eq!(tools[0].example[0], "Examples:");
    assert_eq!(tools[0].example[1], "1) Unauthenticated probe:");
    assert_eq!(tools[2].name, "probe_help");
    assert_eq!(tools[2].example, vec!["{ }".to_string()]);
}

#[test]
fn selected_run_examples_are_renumbered() {
    let text = format_probe_run_examples_for(&[ProbeRunExampleId::Refresh]);
    assert!(text.starts_with("Examples:\n1) Refresh access token (OAuth refresh_token):\n   {"));
    assert_eq!(format_probe_run_examples().lines().count(), 9);
}

#[test]
fn tool_help_pages_and_unknown_tools() {
    let page = format_probe_help_text(Some("probe_replay"));
    assert!(page.starts_with(
        "Tool: probe_replay\nValidate Last-Event-ID replay for streamable HTTP.\n\n"
    ));
    assert!(page.contains("\nNotes:\n- transport: stdio | sse | streamable-http"));
    assert!(page.ends_with("(enforced for safety)."));
    let unknown = format_probe_help_text(Some("nope"));
    assert!(unknown.starts_with("Unknown tool \"nope\". Known tools: probe_run, probe_run_script,"));
    assert!(unknown.ends_with("probe_resource_subscribe."));
    let summary = format_probe_help_text(None);
    assert!(summary.starts_with(
        "mcp-probe tools:\n1) probe_run - Full probe: connect + list tools/resources/prompts.\n"
    ));
}

#[test]
fn example_payloads_join_lines() {
    assert!(format_probe_script_example().starts_with("Example script:\n{\n  \"scenario\": {"));
    assert_eq!(
        format_probe_handshake_example(),
        "{ \"transport\": \"streamable-http\", \"url\": \"http://127.0.0.1:8002/mcp\" }\n{ \"transport\": \"streamable-http\", \"url\": \"http://127.0.0.1:8002/mcp\", \"expect_auth_required\": true }"
    );
}
