//! The status of worktrees: assembling the changed files of a worktree from
//! what git reported about it, picking worktrees by id and ordering them.
//! Running git is left to the caller, which hands over its parsed output.

use vstd::prelude::*;

use crate::shared::git::{copy_hunks, hunks_view, DiffHunk, FileChange, GitError, HunkView, WorktreeStatus};
use crate::shared::git_diff::{files_view, hunks_for, hunks_of, FileHunks};
use crate::shared::git_output::{derive_worktree_id, numstat_for, numstat_lookup, numstat_view, worktree_id};
use crate::shared::git_status::{entries_view, EntryView, ParsedStatus, StatusEntry};
use crate::text::{opt_view, owned, str_eq, strings_view};

verus! {

/// A changed file as mathematical values.
pub struct FileChangeView {
    pub path: Seq<char>,
    pub old_path: Option<Seq<char>>,
    pub status_code: Seq<char>,
    pub additions: u32,
    pub deletions: u32,
    pub hunks: Option<Seq<HunkView>>,
}

impl View for FileChange {
    type V = FileChangeView;

    open spec fn view(&self) -> FileChangeView {
        FileChangeView {
            path: self.path@,
            old_path: opt_view(self.old_path),
            status_code: self.status_code@,
            additions: self.additions,
            deletions: self.deletions,
            hunks: match self.hunks {
                Some(h) => Some(hunks_view(h@)),
                None => None,
            },
        }
    }
}

/// The mathematical values of a sequence of changed files.
pub open spec fn changes_view(v: Seq<FileChange>) -> Seq<FileChangeView> {
    Seq::new(v.len(), |i: int| v[i]@)
}

/// What `git diff` reported about one untracked file: its counts and hunks.
pub open spec fn untracked_view(v: Seq<((u32, u32), Vec<DiffHunk>)>) -> Seq<((u32, u32), Seq<HunkView>)> {
    Seq::new(v.len(), |i: int| (v[i].0, hunks_view(v[i].1@)))
}

/// The changed file of status entry `e`. Untracked files (`??`) take the
/// counts and hunks of their own `--no-index` diff, with no hunks when that
/// diff has none; files under version control take theirs from the worktree-wide numstat
/// table (zero when absent) and diff. Hunks are only given when asked for.
pub open spec fn change_for(
    e: EntryView,
    include_hunks: bool,
    numstat: Seq<(Seq<char>, u32, u32)>,
    known: FileHunks,
    untracked: ((u32, u32), Seq<HunkView>),
) -> FileChangeView {
    let is_untracked = e.status_code == "??"@;
    let counts = if is_untracked {
        untracked.0
    } else {
        numstat_lookup(numstat, e.path)
    };
    FileChangeView {
        path: e.path,
        old_path: e.old_path,
        status_code: e.status_code,
        additions: counts.0,
        deletions: counts.1,
        hunks: if !include_hunks {
            None
        } else if is_untracked {
            if untracked.1.len() == 0 {
                None
            } else {
                Some(untracked.1)
            }
        } else {
            hunks_of(known, e.path)
        },
    }
}

fn copy_opt(o: &Option<String>) -> (r: Option<String>)
    ensures
        opt_view(r) == opt_view(*o),
{
    match o {
        Some(s) => Some(owned(s.as_str())),
        None => None,
    }
}

fn change_for_entry(
    e: &StatusEntry,
    include_hunks: bool,
    numstat: &Vec<(String, u32, u32)>,
    known: &Vec<(String, Vec<DiffHunk>)>,
    untracked: &((u32, u32), Vec<DiffHunk>),
) -> (r: FileChange)
    ensures
        r@ == change_for(
            e@,
            include_hunks,
            numstat_view(numstat@),
            files_view(known@),
            (untracked.0, hunks_view(untracked.1@)),
        ),
{
    let is_untracked = str_eq(e.status_code.as_str(), "??");
    let counts = if is_untracked {
        untracked.0
    } else {
        numstat_for(numstat, e.path.as_str())
    };
    let hunks = if !include_hunks {
        None
    } else if is_untracked {
        if untracked.1.len() == 0 {
            None
        } else {
            Some(copy_hunks(&untracked.1))
        }
    } else {
        hunks_for(known, e.path.as_str())
    };
    FileChange {
        path: owned(e.path.as_str()),
        old_path: copy_opt(&e.old_path),
        status_code: owned(e.status_code.as_str()),
        additions: counts.0,
        deletions: counts.1,
        hunks,
    }
}

/// The status of the worktree `id` at `path`, from its parsed
/// `git status`, its `git diff --numstat HEAD` table, its
/// `git diff --unified=3 HEAD` hunks and, for each status entry in order,
/// what the `--no-index` diff of that file reported (used for untracked
/// entries only). The worktree is dirty exactly when it has changed files.
pub fn collect_status_for_path(
    id: String,
    path: String,
    parsed: ParsedStatus,
    include_hunks: bool,
    tracked_numstat: &Vec<(String, u32, u32)>,
    tracked_hunks: &Vec<(String, Vec<DiffHunk>)>,
    untracked: &Vec<((u32, u32), Vec<DiffHunk>)>,
) -> (r: WorktreeStatus)
    requires
        untracked@.len() == parsed.entries@.len(),
    ensures
        r.id@ == id@,
        r.path@ == path@,
        r.branch@ == parsed.branch.branch@,
        opt_view(r.upstream) == opt_view(parsed.branch.upstream),
        r.ahead == parsed.branch.ahead,
        r.behind == parsed.branch.behind,
        r.is_dirty == (parsed.entries@.len() > 0),
        changes_view(r.files@) == Seq::new(
            parsed.entries@.len(),
            |i: int|
                change_for(
                    entries_view(parsed.entries@)[i],
                    include_hunks,
                    numstat_view(tracked_numstat@),
                    files_view(tracked_hunks@),
                    untracked_view(untracked@)[i],
                ),
        ),
{
    let ghost want = Seq::new(
        parsed.entries@.len(),
        |i: int|
            change_for(
                entries_view(parsed.entries@)[i],
                include_hunks,
                numstat_view(tracked_numstat@),
                files_view(tracked_hunks@),
                untracked_view(untracked@)[i],
            ),
    );
    let n = parsed.entries.len();
    let mut files: Vec<FileChange> = Vec::new();
    let mut i: usize = 0;
    while i < n
        invariant
            n == parsed.entries@.len(),
            n == untracked@.len(),
            i <= n,
            want == Seq::new(
                parsed.entries@.len(),
                |i: int|
                    change_for(
                        entries_view(parsed.entries@)[i],
                        include_hunks,
                        numstat_view(tracked_numstat@),
                        files_view(tracked_hunks@),
                        untracked_view(untracked@)[i],
                    ),
            ),
            changes_view(files@) == want.take(i as int),
        decreases n - i,
    {
        let c = change_for_entry(
            &parsed.entries[i],
            include_hunks,
            tracked_numstat,
            tracked_hunks,
            &untracked[i],
        );
        assert(entries_view(parsed.entries@)[i as int] == parsed.entries@[i as int]@);
        assert(untracked_view(untracked@)[i as int] == (
            untracked@[i as int].0,
            hunks_view(untracked@[i as int].1@),
        ));
        let ghost before = changes_view(files@);
        files.push(c);
        assert(changes_view(files@) =~= before.push(c@));
        assert(want.take(i + 1) =~= want.take(i as int).push(want[i as int]));
        i = i + 1;
    }
    assert(want.take(n as int) =~= want);
    let dirty = n > 0;
    WorktreeStatus {
        id,
        path,
        branch: parsed.branch.branch,
        upstream: parsed.branch.upstream,
        ahead: parsed.branch.ahead,
        behind: parsed.branch.behind,
        is_dirty: dirty,
        files,
    }
}

/// Whether a worktree whose `git status` is `status` has uncommitted
/// changes: whether any path is reported.
pub fn is_dirty(status: &ParsedStatus) -> (r: bool)
    ensures
        r == (status.entries@.len() > 0),
{
    status.entries.len() > 0
}

/// The first of `paths` whose worktree id is `id`.
pub open spec fn worktree_with_id(paths: Seq<Seq<char>>, id: Seq<char>) -> Option<Seq<char>>
    decreases paths.len(),
{
    if paths.len() == 0 {
        None
    } else if worktree_id(paths[0]) == id {
        Some(paths[0])
    } else {
        worktree_with_id(paths.drop_first(), id)
    }
}

/// Picks, among the worktrees listed by `git worktree list`, the one whose
/// id is `worktree_id`: its path, or `NotFound` with the id.
pub fn collect_worktree_status(worktree_paths: &Vec<String>, worktree_id: &str) -> (r: Result<
    String,
    GitError,
>)
    ensures
        match worktree_with_id(strings_view(worktree_paths@), worktree_id@) {
            Some(p) => r matches Ok(s) && s@ == p,
            None => r matches Err(GitError::NotFound(s)) && s@ == worktree_id@,
        },
{
    let ghost all = strings_view(worktree_paths@);
    let mut i: usize = 0;
    assert(all.skip(0) =~= all);
    while i < worktree_paths.len()
        invariant
            i <= worktree_paths@.len(),
            all == strings_view(worktree_paths@),
            worktree_with_id(all, worktree_id@) == worktree_with_id(all.skip(i as int), worktree_id@),
        decreases worktree_paths@.len() - i,
    {
        assert(all.skip(i as int)[0] == worktree_paths@[i as int]@);
        assert(all.skip(i as int).drop_first() =~= all.skip(i + 1));
        let id = derive_worktree_id(worktree_paths[i].as_str());
        if str_eq(id.as_str(), worktree_id) {
            return Ok(owned(worktree_paths[i].as_str()));
        }
        i = i + 1;
    }
    assert(all.skip(i as int) =~= Seq::<Seq<char>>::empty());
    Err(GitError::NotFound(owned(worktree_id)))
}

/// The worktrees other than `staging` itself, in order.
pub open spec fn worker_worktrees(paths: Seq<Seq<char>>) -> Seq<Seq<char>> {
    paths.filter(|p: Seq<char>| worktree_id(p) != "staging"@)
}

/// The worktrees that fast-forwarding all worktrees to `staging` merges
/// into, in the order they are listed: every listed worktree but `staging`
/// itself. The caller runs `git merge --ff-only staging` in each; a
/// worktree that cannot be fast-forwarded is skipped so the others still
/// are.
pub fn fast_forward_all_worktrees(worktree_paths: &Vec<String>) -> (r: Vec<String>)
    ensures
        strings_view(r@) == worker_worktrees(strings_view(worktree_paths@)),
{
    let ghost all = strings_view(worktree_paths@);
    let mut out: Vec<String> = Vec::new();
    let mut i: usize = 0;
    proof {
        reveal(Seq::filter);
    }
    assert(all.take(0).filter(|p: Seq<char>| worktree_id(p) != "staging"@) =~= Seq::<
        Seq<char>,
    >::empty());
    assert(strings_view(out@) =~= Seq::<Seq<char>>::empty());
    while i < worktree_paths.len()
        invariant
            i <= worktree_paths@.len(),
            all == strings_view(worktree_paths@),
            strings_view(out@) == all.take(i as int).filter(
                |p: Seq<char>| worktree_id(p) != "staging"@,
            ),
        decreases worktree_paths@.len() - i,
    {
        let id = derive_worktree_id(worktree_paths[i].as_str());
        let ghost before = strings_view(out@);
        assert(all.take(i + 1) =~= all.take(i as int).push(all[i as int]));
        proof {
            all.take(i as int).lemma_filter_push(
                all[i as int],
                |p: Seq<char>| worktree_id(p) != "staging"@,
            );
        }
        if !str_eq(id.as_str(), "staging") {
            out.push(owned(worktree_paths[i].as_str()));
            assert(strings_view(out@) =~= before.push(all[i as int]));
        } else {
            assert(strings_view(out@) =~= before);
        }
        i = i + 1;
    }
    assert(all.take(i as int) =~= all);
    out
}

// ---------------------------------------------------------------------------
// Ordering worktrees by id
// ---------------------------------------------------------------------------

/// Strict lexicographic order of strings by code point. `Ord` for `str`
/// compares UTF-8 bytes, which orders strings the same way.
pub open spec fn text_lt(a: Seq<char>, b: Seq<char>) -> bool
    decreases a.len(),
{
    if b.len() == 0 {
        false
    } else if a.len() == 0 {
        true
    } else if a[0] != b[0] {
        (a[0] as u32) < (b[0] as u32)
    } else {
        text_lt(a.drop_first(), b.drop_first())
    }
}

/// `text_lt` is irreflexive.
pub proof fn lemma_text_lt_irreflexive(a: Seq<char>)
    ensures
        !text_lt(a, a),
    decreases a.len(),
{
    if a.len() > 0 {
        lemma_text_lt_irreflexive(a.drop_first());
    }
}

/// `text_lt` is transitive.
pub proof fn lemma_text_lt_transitive(a: Seq<char>, b: Seq<char>, c: Seq<char>)
    requires
        text_lt(a, b),
        text_lt(b, c),
    ensures
        text_lt(a, c),
    decreases a.len(),
{
    if a.len() > 0 && a[0] == b[0] && b[0] == c[0] {
        lemma_text_lt_transitive(a.drop_first(), b.drop_first(), c.drop_first());
    }
}

fn text_less(a: &str, b: &str) -> (r: bool)
    ensures
        r == text_lt(a@, b@),
{
    let x = crate::text::chars_of(a);
    let y = crate::text::chars_of(b);
    let mut i: usize = 0;
    assert(x@.skip(0) =~= x@);
    assert(y@.skip(0) =~= y@);
    while i < x.len() && i < y.len() && x[i] == y[i]
        invariant
            i <= x@.len(),
            i <= y@.len(),
            text_lt(x@, y@) == text_lt(x@.skip(i as int), y@.skip(i as int)),
        decreases x@.len() - i,
    {
        assert(x@.skip(i as int).drop_first() =~= x@.skip(i + 1));
        assert(y@.skip(i as int).drop_first() =~= y@.skip(i + 1));
        i = i + 1;
    }
    if i == y.len() {
        false
    } else if i == x.len() {
        true
    } else {
        assert(x@.skip(i as int)[0] == x@[i as int]);
        assert(y@.skip(i as int)[0] == y@[i as int]);
        (x[i] as u32) < (y[i] as u32)
    }
}

/// Worktrees in nondecreasing order of id.
pub open spec fn sorted_by_id(v: Seq<WorktreeStatus>) -> bool {
    forall|i: int, j: int| 0 <= i < j < v.len() ==> !text_lt(#[trigger] v[j].id@, #[trigger] v[i].id@)
}

/// Whether a worktree's id is `k`.
pub open spec fn has_id(k: Seq<char>) -> spec_fn(WorktreeStatus) -> bool {
    |s: WorktreeStatus| s.id@ == k
}

/// The worktrees of `v` whose id is `k`, in order.
pub open spec fn with_id(v: Seq<WorktreeStatus>, k: Seq<char>) -> Seq<WorktreeStatus> {
    v.filter(has_id(k))
}

proof fn lemma_filter_none(v: Seq<WorktreeStatus>, k: Seq<char>)
    requires
        forall|j: int| 0 <= j < v.len() ==> (#[trigger] v[j]).id@ != k,
    ensures
        with_id(v, k).len() == 0,
{
    broadcast use vstd::seq_lib::group_filter_ensures;

    let f = has_id(k);
    if v.filter(f).len() > 0 {
        let e = v.filter(f)[0];
        assert(v.filter(f).contains(e));
        v.lemma_filter_contains_rev(f, e);
        let j = choose|j: int| 0 <= j < v.len() && v[j] == e;
        assert(f(v.filter(f)[0]));
    }
}

/// Inserting `x` after every element whose id it does not precede keeps
/// the order, and puts `x` after every other element with its id.
proof fn lemma_insert_sorted(out: Seq<WorktreeStatus>, p: int, x: WorktreeStatus)
    requires
        sorted_by_id(out),
        0 <= p <= out.len(),
        forall|j: int| 0 <= j < p ==> !text_lt(x.id@, #[trigger] out[j].id@),
        p < out.len() ==> text_lt(x.id@, out[p].id@),
    ensures
        sorted_by_id(out.insert(p, x)),
        forall|j: int| p <= j < out.len() ==> (#[trigger] out[j]).id@ != x.id@,
{
    let n = out.insert(p, x);
    out.insert_ensures(p, x);
    assert forall|j: int| p <= j < out.len() implies (#[trigger] out[j]).id@ != x.id@ by {
        if j == p {
            lemma_text_lt_irreflexive(x.id@);
        }
        if j > p && out[j].id@ == x.id@ {
            assert(!text_lt(out[j].id@, out[p].id@));
        }
    }
    assert forall|i: int, j: int| 0 <= i < j < n.len() implies !text_lt(
        #[trigger] n[j].id@,
        #[trigger] n[i].id@,
    ) by {
        if i < p && j == p {
        } else if i < p && j > p {
            assert(n[j] == out[j - 1]);
        } else if i == p {
            assert(n[j] == out[j - 1]);
            if text_lt(out[j - 1].id@, x.id@) {
                if j - 1 > p {
                    assert(!text_lt(out[j - 1].id@, out[p].id@));
                    lemma_text_lt_transitive(out[j - 1].id@, x.id@, out[p].id@);
                } else {
                    lemma_text_lt_transitive(x.id@, out[p].id@, x.id@);
                    lemma_text_lt_irreflexive(x.id@);
                }
            }
        } else if j < p {
            assert(n[j] == out[j]);
            assert(n[i] == out[i]);
        } else {
            assert(n[j] == out[j - 1]);
            assert(n[i] == out[i - 1]);
        }
    }
}

proof fn lemma_insert_with_id(
    out: Seq<WorktreeStatus>,
    p: int,
    x: WorktreeStatus,
    before: Seq<WorktreeStatus>,
    k: Seq<char>,
)
    requires
        0 <= p <= out.len(),
        forall|j: int| p <= j < out.len() ==> (#[trigger] out[j]).id@ != x.id@,
        with_id(out, k) == with_id(before, k),
    ensures
        with_id(out.insert(p, x), k) == with_id(before.push(x), k),
{
    broadcast use vstd::seq_lib::group_seq_lib_default;

    let f = has_id(k);
    let a = out.subrange(0, p);
    let b = out.subrange(p, out.len() as int);
    assert(out =~= a + b);
    assert(out.insert(p, x) =~= a.push(x) + b);
    a.lemma_filter_push(x, f);
    before.lemma_filter_push(x, f);
    if x.id@ == k {
        assert forall|j: int| 0 <= j < b.len() implies (#[trigger] b[j]).id@ != k by {
            assert(b[j] == out[p + j]);
        }
        lemma_filter_none(b, k);
        assert(b.filter(f) =~= Seq::<WorktreeStatus>::empty());
    }
}

/// The statuses ordered by id, those with equal ids staying in the order
/// they came in (a stable sort by id).
pub fn collect_all_worktree_statuses(statuses: Vec<WorktreeStatus>) -> (r: Vec<WorktreeStatus>)
    ensures
        sorted_by_id(r@),
        forall|k: Seq<char>| #[trigger] with_id(r@, k) == with_id(statuses@, k),
{
    let ghost input = statuses@;
    let mut rest = statuses;
    let mut out: Vec<WorktreeStatus> = Vec::new();
    let ghost mut done: int = 0;
    proof {
        reveal(Seq::filter);
        assert(input.skip(0) =~= input);
        assert forall|k: Seq<char>| #[trigger] with_id(out@, k) == with_id(input.take(0), k) by {
            assert(input.take(0) =~= Seq::<WorktreeStatus>::empty());
        }
    }
    while rest.len() > 0
        invariant
            0 <= done <= input.len(),
            rest@ == input.skip(done),
            sorted_by_id(out@),
            forall|k: Seq<char>| #[trigger] with_id(out@, k) == with_id(input.take(done), k),
        decreases rest@.len(),
    {
        let x = rest.remove(0);
        assert(x == input[done]);
        assert(rest@ =~= input.skip(done + 1));
        let mut p: usize = 0;
        while p < out.len() && !text_less(x.id.as_str(), out[p].id.as_str())
            invariant
                p <= out@.len(),
                forall|j: int| 0 <= j < p ==> !text_lt(x.id@, #[trigger] out@[j].id@),
            decreases out@.len() - p,
        {
            p = p + 1;
        }
        let ghost old_out = out@;
        proof {
            lemma_insert_sorted(old_out, p as int, x);
            assert forall|k: Seq<char>| #[trigger] with_id(old_out.insert(p as int, x), k)
                == with_id(input.take(done + 1), k) by {
                assert(input.take(done + 1) =~= input.take(done).push(x));
                lemma_insert_with_id(old_out, p as int, x, input.take(done), k);
            }
        }
        out.insert(p, x);
        proof {
            done = done + 1;
        }
    }
    assert(input.take(done) =~= input);
    out
}

} // verus!
