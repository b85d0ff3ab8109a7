use mcp_probe::build_support::{
    collect_git_watch_paths, gitdir_from_text, head_reference_from_text, resolve_git_dir,
};

#[test]
fn git_dir_resolution() {
    assert_eq!(resolve_git_dir("/repo", true, None).unwrap(), "/repo/.git");
    assert_eq!(
        resolve_git_dir("/repo", false, Some("gitdir: ../main/.git/worktrees/x\n")).unwrap(),
        "/repo/../main/.git/worktrees/x"
    );
    assert_eq!(
        resolve_git_dir("/repo", false, Some("gitdir: /abs/git")).unwrap(),
        "/abs/git"
    );
    assert_eq!(resolve_git_dir("/repo", false, Some("nonsense")), None);
    assert_eq!(resolve_git_dir("/repo", false, None), None);
    assert_eq!(gitdir_from_text("  gitdir:   x  "), Some("x".to_string()));
}

#[test]
fn watch_paths_include_branch() {
    assert_eq!(head_reference_from_text("ref: refs/heads/main\n"), Some("refs/heads/main".to_string()));
    assert_eq!(head_reference_from_text("ref:   "), None);
    assert_eq!(head_reference_from_text("3f2a"), None);
    let paths = collect_git_watch_paths(Some("/r/.git"), Some("ref: refs/heads/main"));
    assert_eq!(
        paths,
        vec![
            "/r/.git/HEAD",
            "/r/.git/packed-refs",
            "/r/.git/index",
            "/r/.git/logs/HEAD",
            "/r/.git/refs/heads/main",
            "/r/.git/logs/refs/heads/main",
        ]
    );
    assert_eq!(collect_git_watch_paths(Some("/r/.git"), None).len(), 4);
    assert!(collect_git_watch_paths(None, Some("ref: x")).is_empty());
}
