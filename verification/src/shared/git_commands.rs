//! The git command lines the server runs, and the values it derives from
//! what they print. Each command is run as `git -C <repository> <args>`;
//! these functions give the `<args>`.

use vstd::prelude::*;

use crate::bytes::{lossy_chars, utf8_lossy};
use crate::paths::{is_absolute, path_remainder, path_starts_with, strip_path_prefix};
use crate::shared::cmdline::push_lit;
use crate::split::{trim_start_matches, trim_start_matches_chars};
use crate::text::{chars_of, i64_to_string, push_string, signed_decimal, string_of, strings_view, trim, trim_chars};

verus! {

fn args2(a: &str, b: &str) -> (r: Vec<String>)
    ensures
        strings_view(r@) == seq![a@, b@],
{
    let mut r: Vec<String> = Vec::new();
    push_lit(&mut r, a);
    push_lit(&mut r, b);
    assert(strings_view(r@) =~= seq![a@, b@]);
    r
}

fn args3(a: &str, b: &str, c: &str) -> (r: Vec<String>)
    ensures
        strings_view(r@) == seq![a@, b@, c@],
{
    let mut r = args2(a, b);
    push_lit(&mut r, c);
    assert(strings_view(r@) =~= seq![a@, b@, c@]);
    r
}

/// `merge <revision>`.
pub fn merge_args(revision: &str) -> (r: Vec<String>)
    ensures
        strings_view(r@) == seq!["merge"@, revision@],
{
    args2("merge", revision)
}

/// `merge --ff-only <revision>`.
pub fn merge_ff_only_args(revision: &str) -> (r: Vec<String>)
    ensures
        strings_view(r@) == seq!["merge"@, "--ff-only"@, revision@],
{
    args3("merge", "--ff-only", revision)
}

/// `pull --ff-only <remote> <branch>`.
pub fn pull_ff_only_args(remote: &str, branch: &str) -> (r: Vec<String>)
    ensures
        strings_view(r@) == seq!["pull"@, "--ff-only"@, remote@, branch@],
{
    let mut r = args3("pull", "--ff-only", remote);
    push_lit(&mut r, branch);
    assert(strings_view(r@) =~= seq!["pull"@, "--ff-only"@, remote@, branch@]);
    r
}

/// The command that fast-forwards a worktree to the `staging` branch:
/// `merge --ff-only staging`.
pub fn fast_forward_to_staging() -> (r: Vec<String>)
    ensures
        strings_view(r@) == seq!["merge"@, "--ff-only"@, "staging"@],
{
    merge_ff_only_args("staging")
}

/// `add --all`.
pub fn stage_all_args() -> (r: Vec<String>)
    ensures
        strings_view(r@) == seq!["add"@, "--all"@],
{
    args2("add", "--all")
}

/// `commit -m <message>`.
pub fn commit_args(message: &str) -> (r: Vec<String>)
    ensures
        strings_view(r@) == seq!["commit"@, "-m"@, message@],
{
    args3("commit", "-m", message)
}

/// `stash push -u -m <message>`: stashes every change, untracked files
/// included.
pub fn stash_all_args(message: &str) -> (r: Vec<String>)
    ensures
        strings_view(r@) == seq!["stash"@, "push"@, "-u"@, "-m"@, message@],
{
    let mut r = args3("stash", "push", "-u");
    push_lit(&mut r, "-m");
    push_lit(&mut r, message);
    assert(strings_view(r@) =~= seq!["stash"@, "push"@, "-u"@, "-m"@, message@]);
    r
}

/// `merge --abort`.
pub fn abort_merge_args() -> (r: Vec<String>)
    ensures
        strings_view(r@) == seq!["merge"@, "--abort"@],
{
    args2("merge", "--abort")
}

/// The branch of worker `worker_id`'s worktree: `ws<id>`.
pub open spec fn worker_branch(worker_id: int) -> Seq<char> {
    "ws"@ + signed_decimal(worker_id)
}

/// `worktree add -B ws<id> <destination>`: creates (or resets) the worker's
/// branch and checks it out at `destination`.
pub fn create_worker_worktree_args(destination: &str, worker_id: i64) -> (r: Vec<String>)
    ensures
        strings_view(r@) == seq![
            "worktree"@,
            "add"@,
            "-B"@,
            worker_branch(worker_id as int),
            destination@,
        ],
{
    let mut branch = chars_of("ws");
    let id = i64_to_string(worker_id);
    crate::text::push_str_chars(&mut branch, id.as_str());
    let mut r = args3("worktree", "add", "-B");
    push_string(&mut r, string_of(&branch));
    push_lit(&mut r, destination);
    assert(strings_view(r@) =~= seq![
        "worktree"@,
        "add"@,
        "-B"@,
        worker_branch(worker_id as int),
        destination@,
    ]);
    r
}

/// How a commit is diffed: a root commit against the empty tree
/// (`--root <rev>`), any other against its parent (`<rev>^!`).
pub open spec fn commit_range(rev: Seq<char>, is_root_commit: bool) -> Seq<Seq<char>> {
    if is_root_commit {
        seq!["--root"@, rev]
    } else {
        seq![rev + "^!"@]
    }
}

fn push_commit_range(args: &mut Vec<String>, rev: &str, is_root_commit: bool)
    ensures
        strings_view(final(args)@) == strings_view(old(args)@) + commit_range(
            rev@,
            is_root_commit,
        ),
{
    if is_root_commit {
        push_lit(args, "--root");
        push_lit(args, rev);
        assert(strings_view(args@) =~= strings_view(old(args)@) + commit_range(
            rev@,
            is_root_commit,
        ));
    } else {
        let mut r = chars_of(rev);
        crate::text::push_str_chars(&mut r, "^!");
        push_string(args, string_of(&r));
        assert(strings_view(args@) =~= strings_view(old(args)@) + commit_range(
            rev@,
            is_root_commit,
        ));
    }
}

/// `diff --stat` of the commit `rev`.
pub fn diff_stat_args(rev: &str, is_root_commit: bool) -> (r: Vec<String>)
    ensures
        strings_view(r@) == seq!["diff"@, "--stat"@] + commit_range(rev@, is_root_commit),
{
    let mut r = args2("diff", "--stat");
    push_commit_range(&mut r, rev, is_root_commit);
    r
}

/// `diff` of one file in the commit `rev`.
pub fn file_diff_args(rev: &str, is_root_commit: bool, relative_path: &str) -> (r: Vec<String>)
    ensures
        strings_view(r@) == seq!["diff"@] + commit_range(rev@, is_root_commit) + seq![
            "--"@,
            relative_path@,
        ],
{
    let mut r: Vec<String> = Vec::new();
    push_lit(&mut r, "diff");
    push_commit_range(&mut r, rev, is_root_commit);
    let ghost mid = strings_view(r@);
    push_lit(&mut r, "--");
    push_lit(&mut r, relative_path);
    assert(strings_view(r@) =~= mid + seq!["--"@, relative_path@]);
    r
}

/// The path of `file` as git is given it: without leading `./`, and, when
/// absolute and inside `repo_root`, relative to it.
pub open spec fn file_argument(repo_root: Seq<char>, file: Seq<char>) -> Seq<char> {
    let cleaned = trim_start_matches(file, "./"@);
    if is_absolute(cleaned) && path_starts_with(cleaned, repo_root) {
        path_remainder(cleaned, repo_root)
    } else {
        cleaned
    }
}

/// The path of `file` as git is given it.
pub fn normalize_file_argument(repo_root: &str, file: &str) -> (r: String)
    ensures
        r@ == file_argument(repo_root@, file@),
{
    let f = chars_of(file);
    let dot = chars_of("./");
    let cleaned = string_of(&trim_start_matches_chars(&f, &dot));
    let c = chars_of(cleaned.as_str());
    if c.len() > 0 && c[0] == '/' {
        match strip_path_prefix(cleaned.as_str(), repo_root) {
            Some(rest) => rest,
            None => cleaned,
        }
    } else {
        cleaned
    }
}

/// A commit message as shown: its raw bytes decoded lossily and trimmed.
pub fn commit_message(raw: &[u8]) -> (r: String)
    ensures
        r@ == trim(utf8_lossy(raw@)),
{
    let v = lossy_chars(raw);
    string_of(&trim_chars(&v))
}

/// `worktree list --porcelain`.
pub fn worktree_list_args() -> (r: Vec<String>)
    ensures
        strings_view(r@) == seq!["worktree"@, "list"@, "--porcelain"@],
{
    args3("worktree", "list", "--porcelain")
}

/// `status --porcelain=v2 -b -z`.
pub fn porcelain_status_args() -> (r: Vec<String>)
    ensures
        strings_view(r@) == seq!["status"@, "--porcelain=v2"@, "-b"@, "-z"@],
{
    let mut r = args3("status", "--porcelain=v2", "-b");
    push_lit(&mut r, "-z");
    assert(strings_view(r@) =~= seq!["status"@, "--porcelain=v2"@, "-b"@, "-z"@]);
    r
}

/// `diff --numstat HEAD`: the counts of every changed tracked file.
pub fn tracked_numstat_args() -> (r: Vec<String>)
    ensures
        strings_view(r@) == seq!["diff"@, "--numstat"@, "HEAD"@],
{
    args3("diff", "--numstat", "HEAD")
}

/// `diff --unified=3 HEAD`: the hunks of every changed tracked file.
pub fn tracked_hunks_args() -> (r: Vec<String>)
    ensures
        strings_view(r@) == seq!["diff"@, "--unified=3"@, "HEAD"@],
{
    args3("diff", "--unified=3", "HEAD")
}

/// `diff <mode> --no-index -- /dev/null <target>`: an untracked file
/// diffed against nothing (git exits with 1 when they differ).
pub fn untracked_diff_args(mode: &str, target: &str) -> (r: Vec<String>)
    ensures
        strings_view(r@) == seq!["diff"@, mode@, "--no-index"@, "--"@, "/dev/null"@, target@],
{
    let mut r = args3("diff", mode, "--no-index");
    push_lit(&mut r, "--");
    push_lit(&mut r, "/dev/null");
    push_lit(&mut r, target);
    assert(strings_view(r@) =~= seq!["diff"@, mode@, "--no-index"@, "--"@, "/dev/null"@, target@]);
    r
}

/// `diff --name-only --diff-filter=U`: the files left in conflict.
pub fn conflicted_files_args() -> (r: Vec<String>)
    ensures
        strings_view(r@) == seq!["diff"@, "--name-only"@, "--diff-filter=U"@],
{
    args3("diff", "--name-only", "--diff-filter=U")
}

/// `diff --cc -- <file>`: the combined diff of a conflicted file.
pub fn conflict_diff_args(file: &str) -> (r: Vec<String>)
    ensures
        strings_view(r@) == seq!["diff"@, "--cc"@, "--"@, file@],
{
    let mut r = args3("diff", "--cc", "--");
    push_lit(&mut r, file);
    assert(strings_view(r@) =~= seq!["diff"@, "--cc"@, "--"@, file@]);
    r
}

} // verus!
