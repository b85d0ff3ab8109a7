use mcp_probe::paths::{
    check_token_path, is_path_within, normalize_path, token_cache_path, token_dir, token_path_target,
};

#[test]
fn normalize_path_resolves_dots() {
    assert_eq!(normalize_path("/a/b/../c/./d"), "/a/c/d");
    assert_eq!(normalize_path("/../x"), "/x");
    assert_eq!(normalize_path("a/../../b"), "b");
    assert_eq!(normalize_path("./a//b/"), "a/b");
    assert_eq!(normalize_path(""), "");
}

#[test]
fn path_within_compares_components() {
    assert!(is_path_within("/home/u/.codex", "/home/u/.codex/tokens.json"));
    assert!(is_path_within("/home/u/.codex", "/home/u/.codex"));
    assert!(!is_path_within("/home/u/.codex", "/home/u/.codexx/t.json"));
    assert!(!is_path_within("/home/u/.codex", "/home/u"));
}

#[test]
fn token_path_outside_directory_is_refused() {
    let base = "/home/u/.codex/mcp-probe";
    let target = token_path_target(base, "../../secrets/token");
    assert_eq!(target, "/home/u/.codex/mcp-probe/../../secrets/token");
    let resolved = normalize_path(&target);
    assert_eq!(resolved, "/home/u/secrets/token");
    let err = check_token_path(base, &resolved).unwrap_err();
    assert_eq!(
        err,
        "Token path is outside the allowed directory: /home/u/.codex/mcp-probe. Set MCP_PROBE_TOKEN_DIR to allow other locations."
    );
    let inside = normalize_path(&token_path_target(base, "token.json"));
    assert_eq!(check_token_path(base, &inside).unwrap(), "/home/u/.codex/mcp-probe/token.json");
    assert_eq!(token_path_target(base, "/etc/token"), "/etc/token");
}

#[test]
fn token_cache_and_dir_locations() {
    assert_eq!(token_cache_path(Some("/x/cache.json"), Some("/home/u")), "/x/cache.json");
    assert_eq!(
        token_cache_path(None, Some("/home/u")),
        "/home/u/.codex/mcp-probe/tokens.json"
    );
    assert_eq!(token_cache_path(None, None), "/tmp/mcp-probe-tokens.json");
    assert_eq!(token_dir(Some("/tokens"), "/x/cache.json"), "/tokens");
    assert_eq!(token_dir(None, "/home/u/.codex/mcp-probe/tokens.json"), "/home/u/.codex/mcp-probe");
    assert_eq!(token_dir(None, "/"), ".");
}
