use robot_farm::shared::shell::{resolve_working_dir, ShellError};

#[test]
fn base_outside_workspace_is_refused() {
    match resolve_working_dir("/w/", "/w", "/other", None) {
        Err(ShellError::InvalidCwd(m)) => {
            assert_eq!(m, "base directory /other escapes workspace root /w/")
        }
        other => panic!("unexpected {:?}", other),
    }
    assert!(resolve_working_dir("/w", "/w", "/wx", None).is_err());
}

#[test]
fn blank_request_runs_in_base() {
    assert_eq!(resolve_working_dir("/w", "/w", "/w/ws1", None).unwrap(), "/w/ws1");
    assert_eq!(resolve_working_dir("/w", "/w", "/w/ws1", Some("   ")).unwrap(), "/w/ws1");
}

#[test]
fn requests_are_joined_and_cleaned() {
    assert_eq!(
        resolve_working_dir("/w", "/w", "/w/ws1", Some(" ../ws1/./src ")).unwrap(),
        "/w/ws1/src"
    );
    assert_eq!(resolve_working_dir("/w", "/w", "/w/ws1", Some("/tmp//x/")).unwrap(), "/tmp/x");
}

#[test]
fn relative_request_under_worker_worktree() {
    assert_eq!(resolve_working_dir("/nx", "/nx", "/nx/ws/ws1", Some("b")).unwrap(), "/nx/ws/ws1/b");
    assert_eq!(resolve_working_dir("/nx", "/nx", "/nx/ws/ws1", Some("../../..")).unwrap(), "/");
    assert_eq!(resolve_working_dir("/nx", "/nx", "/nx/ws/ws1", Some("a/..")).unwrap(), "/nx/ws/ws1");
}
