use robot_farm::shared::git::{
    normalize_brace_rename, normalize_numstat_path, parse_diff_path, parse_numstat_value,
    DiffHunk, GitError, WorktreeStatus,
};
use robot_farm::shared::git_commands::{
    commit_message, create_worker_worktree_args, diff_stat_args, fast_forward_to_staging,
    file_diff_args, normalize_file_argument, stash_all_args, untracked_diff_args,
};
use robot_farm::shared::git_diff::{hunks_for, parse_diff_output};
use robot_farm::shared::git_output::{
    derive_worktree_id, numstat_for, parse_file_list, parse_numstat, parse_untracked_hunks,
    parse_untracked_numstat, parse_worktree_list,
};
use robot_farm::shared::git_status::{
    apply_branch_line, parse_porcelain_status, parse_status_line, try_parse_porcelain_status,
    BranchInfo, ParsedStatus, StatusEntry,
};
use robot_farm::shared::git_worktree::{
    collect_all_worktree_statuses, collect_status_for_path, collect_worktree_status,
    fast_forward_all_worktrees, is_dirty,
};

fn chars(s: &str) -> Vec<char> {
    s.chars().collect()
}

fn text(v: &[char]) -> String {
    v.iter().collect()
}

#[test]
fn porcelain_reads_branch_and_entries() {
    let out = b"# branch.oid abc\0# branch.head main\0# branch.upstream origin/main\0# branch.ab +3 -1\01 .M N... 100644 100644 100644 aaa bbb src/lib.rs\02 R. N... 100644 100644 100644 aaa bbb R100 new name.rs\0old name.rs\0? untracked file.txt\0! ignored\0u UU N... 1 2 3 4 a b c conflict.rs\0";
    let parsed = parse_porcelain_status(out).unwrap();
    assert_eq!(parsed.branch.branch, "main");
    assert_eq!(parsed.branch.upstream.as_deref(), Some("origin/main"));
    assert_eq!(parsed.branch.ahead, 3);
    assert_eq!(parsed.branch.behind, 1);
    assert_eq!(parsed.entries.len(), 4);
    assert_eq!(parsed.entries[0].status_code, ".M");
    assert_eq!(parsed.entries[0].path, "src/lib.rs");
    assert_eq!(parsed.entries[1].status_code, "R.");
    assert_eq!(parsed.entries[1].path, "new name.rs");
    assert_eq!(parsed.entries[1].old_path.as_deref(), Some("old name.rs"));
    assert_eq!(parsed.entries[2].status_code, "??");
    assert_eq!(parsed.entries[2].path, "untracked file.txt");
    assert_eq!(parsed.entries[3].status_code, "UU");
    assert_eq!(parsed.entries[3].path, "b c conflict.rs");
    assert!(is_dirty(&parsed));
}

#[test]
fn porcelain_empty_output_is_detached_head() {
    let parsed = parse_porcelain_status(b"").unwrap();
    assert_eq!(parsed.branch.branch, "HEAD");
    assert!(parsed.branch.upstream.is_none());
    assert_eq!(parsed.branch.ahead, 0);
    assert!(parsed.entries.is_empty());
    assert!(!is_dirty(&parsed));
}

#[test]
fn porcelain_errors() {
    match parse_porcelain_status(b"# branch.head main") {
        Err(GitError::Parse(m)) => assert_eq!(m, "unterminated porcelain record"),
        other => panic!("unexpected {:?}", other.map(|p| p.entries.len())),
    }
    match parse_porcelain_status(b"2 R. short\0") {
        Err(GitError::Parse(m)) => assert_eq!(m, "invalid rename status line"),
        other => panic!("unexpected {:?}", other.map(|p| p.entries.len())),
    }
    match parse_porcelain_status(b"2 R. N... 1 2 3 a b R100 new\0old") {
        Err(GitError::Parse(m)) => assert_eq!(m, "missing old path for rename"),
        other => panic!("unexpected {:?}", other.map(|p| p.entries.len())),
    }
    match parse_porcelain_status(b"x what\0") {
        Err(GitError::Parse(m)) => assert_eq!(m, "unknown porcelain entry prefix: x"),
        other => panic!("unexpected {:?}", other.map(|p| p.entries.len())),
    }
}

#[test]
fn porcelain_short_untracked_record_is_refused() {
    assert!(try_parse_porcelain_status(b"?\0").is_none());
    assert!(try_parse_porcelain_status(b"? a\0").is_some());
}

#[test]
fn porcelain_skips_empty_records_and_short_lines() {
    let parsed = parse_porcelain_status(b"\0\x001 .M too short\0").unwrap();
    assert!(parsed.entries.is_empty());
}

#[test]
fn branch_line_counts_default_to_zero() {
    let mut b = BranchInfo { branch: "HEAD".to_string(), upstream: None, ahead: 7, behind: 7 };
    apply_branch_line(&chars("# branch.ab +x -2"), &mut b);
    assert_eq!(b.ahead, 0);
    assert_eq!(b.behind, 2);
    apply_branch_line(&chars("# # branch.head  dev  "), &mut b);
    assert_eq!(b.branch, " dev");
    apply_branch_line(&chars("# branch.oid 123"), &mut b);
    assert_eq!(b.branch, " dev");
}

#[test]
fn status_line_needs_all_fields() {
    let e = parse_status_line(&chars("1 A. N... 0 1 2 x y path with spaces"), 9).unwrap();
    assert_eq!(e.status_code, "A.");
    assert_eq!(e.path, "path with spaces");
    assert!(parse_status_line(&chars("1 A. N..."), 9).is_none());
}

#[test]
fn diff_output_groups_hunks_by_file() {
    let diff = "diff --git a/x.rs b/x.rs\nindex 1..2\n--- a/x.rs\n+++ b/x.rs\n@@ -1 +1 @@\n-a\n+b\n@@ -5 +5 @@\n c\ndiff --git a/gone.rs b/gone.rs\n--- a/gone.rs\n+++ /dev/null\n@@ -1 +0,0 @@\n-z\n";
    let files = parse_diff_output(diff).unwrap();
    assert_eq!(files.len(), 2);
    assert_eq!(files[0].0, "x.rs");
    assert_eq!(files[0].1.len(), 2);
    assert_eq!(files[0].1[0].header, "@@ -1 +1 @@");
    assert_eq!(files[0].1[0].lines, vec!["-a", "+b"]);
    assert_eq!(files[0].1[1].lines, vec![" c"]);
    assert_eq!(files[1].0, "gone.rs");
    let h = hunks_for(&files, "gone.rs").unwrap();
    assert_eq!(h[0].lines, vec!["-z"]);
    assert!(hunks_for(&files, "nope").is_none());
}

#[test]
fn diff_path_strips_prefixes() {
    assert_eq!(text(&parse_diff_path(&chars("+++ b/src/a.rs\t")).unwrap()), "src/a.rs");
    assert!(parse_diff_path(&chars("--- /dev/null")).is_none());
    assert_eq!(text(&parse_diff_path(&chars("--- plain")).unwrap()), "plain");
    assert!(parse_diff_path(&chars("---")).is_none());
}

#[test]
fn numstat_values_and_paths() {
    assert_eq!(parse_numstat_value(&chars("-")), 0);
    assert_eq!(parse_numstat_value(&chars("12")), 12);
    assert_eq!(parse_numstat_value(&chars("x")), 0);
    assert_eq!(text(&normalize_brace_rename(&chars("src/{old => new}/f.rs"))), "src/new/f.rs");
    assert_eq!(text(&normalize_numstat_path(&chars("a.rs => b.rs"))), "b.rs");
    assert_eq!(text(&normalize_numstat_path(&chars("{a => b}.rs"))), "b.rs");
    assert_eq!(text(&normalize_numstat_path(&chars("plain.rs"))), "plain.rs");
    let table = parse_numstat("1\t2\ta.rs\n-\t-\tbin.png\n3\t4\ta.rs");
    assert_eq!(numstat_for(&table, "a.rs"), (3, 4));
    assert_eq!(numstat_for(&table, "bin.png"), (0, 0));
    assert_eq!(numstat_for(&table, "missing"), (0, 0));
}

#[test]
fn untracked_numstat_and_hunks() {
    assert_eq!(parse_untracked_numstat("  \n"), (0, 0));
    assert_eq!(parse_untracked_numstat("5\t0\t/dev/null => f\n"), (5, 0));
    let hunks = parse_untracked_hunks("diff\n@@ -0,0 +1,2 @@\n+a\n+b\n@@ -0,0 +3 @@\n+c");
    assert_eq!(hunks.len(), 2);
    assert_eq!(hunks[0].lines, vec!["+a", "+b"]);
    assert_eq!(hunks[1].header, "@@ -0,0 +3 @@");
    assert_eq!(hunks[1].lines, vec!["+c"]);
}

#[test]
fn worktree_list_and_ids() {
    let out = "worktree /p/staging\nHEAD abc\nbranch refs/heads/staging\n\nworktree /p/ws1\nHEAD def\n\nbare\n";
    let paths = parse_worktree_list(out);
    assert_eq!(paths, vec!["/p/staging", "/p/ws1"]);
    assert_eq!(derive_worktree_id("/p/ws1"), "ws1");
    assert_eq!(derive_worktree_id("/"), "/");
    assert_eq!(fast_forward_all_worktrees(&paths), vec!["/p/ws1"]);
    assert_eq!(collect_worktree_status(&paths, "ws1").unwrap(), "/p/ws1");
    match collect_worktree_status(&paths, "ws9") {
        Err(GitError::NotFound(id)) => assert_eq!(id, "ws9"),
        _ => panic!("expected NotFound"),
    }
}

#[test]
fn conflicted_file_list() {
    assert_eq!(parse_file_list(" a.rs \n\n b.rs"), vec!["a.rs", "b.rs"]);
}

fn status(id: &str) -> WorktreeStatus {
    WorktreeStatus {
        id: id.to_string(),
        path: format!("/p/{id}"),
        branch: "b".to_string(),
        upstream: None,
        ahead: 0,
        behind: 0,
        is_dirty: false,
        files: Vec::new(),
    }
}

#[test]
fn statuses_sorted_stably_by_id() {
    let mut a = status("ws2");
    a.branch = "first".to_string();
    let mut b = status("ws2");
    b.branch = "second".to_string();
    let sorted = collect_all_worktree_statuses(vec![a, status("staging"), b, status("ws1")]);
    let ids: Vec<&str> = sorted.iter().map(|s| s.id.as_str()).collect();
    assert_eq!(ids, vec!["staging", "ws1", "ws2", "ws2"]);
    assert_eq!(sorted[2].branch, "first");
    assert_eq!(sorted[3].branch, "second");
}

#[test]
fn status_assembly_uses_numstat_and_untracked_counts() {
    let parsed = ParsedStatus {
        branch: BranchInfo { branch: "ws1".to_string(), upstream: None, ahead: 1, behind: 2 },
        entries: vec![
            StatusEntry { status_code: ".M".to_string(), path: "a.rs".to_string(), old_path: None },
            StatusEntry { status_code: "??".to_string(), path: "new.txt".to_string(), old_path: None },
        ],
    };
    let numstat = vec![("a.rs".to_string(), 4u32, 1u32)];
    let hunk = DiffHunk { header: "@@ -1 +1 @@".to_string(), lines: vec!["+x".to_string()] };
    let known_hunks = vec![("a.rs".to_string(), vec![hunk.clone()])];
    let untracked = vec![((0, 0), Vec::new()), ((7, 0), vec![hunk])];
    let st = collect_status_for_path(
        "ws1".to_string(),
        "/p/ws1".to_string(),
        parsed,
        true,
        &numstat,
        &known_hunks,
        &untracked,
    );
    assert!(st.is_dirty);
    assert_eq!(st.ahead, 1);
    assert_eq!(st.behind, 2);
    assert_eq!(st.files[0].additions, 4);
    assert_eq!(st.files[0].deletions, 1);
    assert_eq!(st.files[0].hunks.as_ref().unwrap().len(), 1);
    assert_eq!(st.files[1].additions, 7);
    assert_eq!(st.files[1].hunks.as_ref().unwrap()[0].lines, vec!["+x"]);
}

#[test]
fn git_argument_lists() {
    assert_eq!(fast_forward_to_staging(), vec!["merge", "--ff-only", "staging"]);
    assert_eq!(stash_all_args("m"), vec!["stash", "push", "-u", "-m", "m"]);
    assert_eq!(
        create_worker_worktree_args("/p/ws3", 3),
        vec!["worktree", "add", "-B", "ws3", "/p/ws3"]
    );
    assert_eq!(diff_stat_args("abc", true), vec!["diff", "--stat", "--root", "abc"]);
    assert_eq!(diff_stat_args("abc", false), vec!["diff", "--stat", "abc^!"]);
    assert_eq!(file_diff_args("abc", false, "x.rs"), vec!["diff", "abc^!", "--", "x.rs"]);
    assert_eq!(
        untracked_diff_args("--numstat", "/p/f"),
        vec!["diff", "--numstat", "--no-index", "--", "/dev/null", "/p/f"]
    );
}

#[test]
fn file_arguments_are_made_relative() {
    assert_eq!(normalize_file_argument("/p/staging", "./src/a.rs"), "src/a.rs");
    assert_eq!(normalize_file_argument("/p/staging", "/p/staging/src/a.rs"), "src/a.rs");
    assert_eq!(normalize_file_argument("/p/staging", "/elsewhere/a.rs"), "/elsewhere/a.rs");
}

#[test]
fn commit_messages_are_trimmed() {
    assert_eq!(commit_message(b"  fix bug\n\n"), "fix bug");
    assert_eq!(commit_message(b"bad \xff byte"), "bad \u{fffd} byte");
}
