use iso_usb_hub::build_info::{git_dirty_state, git_output, resolve_git_path, GitBuildMetadata};

#[test]
fn git_output_is_trimmed_and_empty_is_none() {
    assert_eq!(git_output(b"  abc123\n"), Some("abc123".to_string()));
    assert_eq!(git_output(b" \n\t"), None);
    assert_eq!(git_output(&[0xff, 0x41]), None);
}

#[test]
fn dirty_state_and_defaults() {
    assert_eq!(git_dirty_state(b""), "false");
    assert_eq!(git_dirty_state(b" M src/lib.rs\n"), "true");
    let m = GitBuildMetadata::collect(Some("full".to_string()), None, None, Some("false".to_string()));
    assert_eq!(m.sha_full, "full");
    assert_eq!(m.sha_short, "unknown");
    assert_eq!(m.git_ref, "detached");
    assert_eq!(m.dirty, "false");
}

#[test]
fn git_paths_resolve_like_path_join() {
    assert_eq!(resolve_git_path("/repo", "/abs/.git"), "/abs/.git");
    assert_eq!(resolve_git_path("/repo", "../.git/worktrees/w"), "/repo/../.git/worktrees/w");
    assert_eq!(resolve_git_path("/repo/", "x"), "/repo/x");
    assert_eq!(resolve_git_path("", "x"), "x");
}
