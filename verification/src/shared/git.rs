//! What the server reads from git: worktree lists, `--numstat` counts,
//! unified diffs and merge conflicts, parsed into the library's types.
//! Running git is left to the caller; these functions take its output.

use vstd::prelude::*;

use crate::split::lines;
use crate::text::{chars_eq, chars_of, contains, contains_seq, has_prefix, matches_at, occurs_at, parse_u32, parse_unsigned, slice_chars, starts_with, string_of, strings_view, trim, trim_chars};

verus! {

/// A file left in conflict by a merge, with its combined diff.
#[derive(Debug, Clone)]
pub struct MergeConflict {
    pub file: String,
    pub diff: String,
}

/// One hunk of a unified diff: its `@@` header and the lines after it.
#[derive(Debug, Clone)]
pub struct DiffHunk {
    pub header: String,
    pub lines: Vec<String>,
}

/// A changed file of a worktree.
#[derive(Debug, Clone)]
pub struct FileChange {
    pub path: String,
    pub old_path: Option<String>,
    pub status_code: String,
    pub additions: u32,
    pub deletions: u32,
    pub hunks: Option<Vec<DiffHunk>>,
}

/// The state of one worktree: its branch, how far it is from upstream and
/// its changed files.
#[derive(Debug, Clone)]
pub struct WorktreeStatus {
    pub id: String,
    pub path: String,
    pub branch: String,
    pub upstream: Option<String>,
    pub ahead: u32,
    pub behind: u32,
    pub is_dirty: bool,
    pub files: Vec<FileChange>,
}

/// Failures of git commands and of reading their output.
#[derive(Debug)]
pub enum GitError {
    /// The command exited with an error; its trimmed standard error.
    CommandFailure { stderr: String },
    /// The repository at `path` is bare or invalid.
    BareRepository { path: String },
    /// The command's output could not be read.
    Parse(String),
    /// No worktree has the requested id.
    NotFound(String),
}

/// What a failed git command is reported as.
pub open spec fn command_failure_message(stderr: Seq<char>) -> Seq<char> {
    "git command exited with error: "@ + stderr
}

/// How a git error is reported.
pub open spec fn git_error_message(e: GitError) -> Seq<char> {
    match e {
        GitError::CommandFailure { stderr } => command_failure_message(stderr@),
        GitError::BareRepository { path } => "repository at "@ + path@ + " is bare or invalid"@,
        GitError::Parse(m) => "failed to parse git output: "@ + m@,
        GitError::NotFound(id) => "worktree not found: "@ + id@,
    }
}

impl GitError {
    /// How the error is reported.
    pub fn message(&self) -> (r: String)
        ensures
            r@ == git_error_message(*self),
    {
        let (head, body, tail) = match self {
            GitError::CommandFailure { stderr } => ("git command exited with error: ", stderr.as_str(), ""),
            GitError::BareRepository { path } => ("repository at ", path.as_str(), " is bare or invalid"),
            GitError::Parse(m) => ("failed to parse git output: ", m.as_str(), ""),
            GitError::NotFound(id) => ("worktree not found: ", id.as_str(), ""),
        };
        let mut v = chars_of(head);
        crate::text::push_str_chars(&mut v, body);
        crate::text::push_str_chars(&mut v, tail);
        proof {
            reveal_strlit("");
        }
        string_of(&v)
    }
}

/// A hunk as mathematical values.
pub struct HunkView {
    pub header: Seq<char>,
    pub lines: Seq<Seq<char>>,
}

impl View for DiffHunk {
    type V = HunkView;

    open spec fn view(&self) -> HunkView {
        HunkView { header: self.header@, lines: strings_view(self.lines@) }
    }
}

/// The mathematical values of a sequence of hunks.
pub open spec fn hunks_view(v: Seq<DiffHunk>) -> Seq<HunkView> {
    Seq::new(v.len(), |i: int| v[i]@)
}

fn push_hunk(v: &mut Vec<DiffHunk>, h: DiffHunk)
    ensures
        hunks_view(final(v)@) == hunks_view(old(v)@).push(h@),
{
    v.push(h);
    assert(hunks_view(v@) =~= hunks_view(old(v)@).push(h@));
}

/// A copy of a vector of strings.
fn copy_strings(v: &Vec<String>) -> (r: Vec<String>)
    ensures
        strings_view(r@) == strings_view(v@),
{
    crate::text::clone_strings(v)
}

/// A copy of a hunk.
pub fn copy_hunk(h: &DiffHunk) -> (r: DiffHunk)
    ensures
        r@ == h@,
{
    DiffHunk { header: h.header.clone(), lines: copy_strings(&h.lines) }
}

/// A copy of a vector of hunks.
pub fn copy_hunks(v: &Vec<DiffHunk>) -> (r: Vec<DiffHunk>)
    ensures
        hunks_view(r@) == hunks_view(v@),
{
    let mut r: Vec<DiffHunk> = Vec::new();
    let mut i: usize = 0;
    while i < v.len()
        invariant
            i <= v@.len(),
            hunks_view(r@) == hunks_view(v@).take(i as int),
        decreases v@.len() - i,
    {
        push_hunk(&mut r, copy_hunk(&v[i]));
        assert(hunks_view(v@).take(i + 1) =~= hunks_view(v@).take(i as int).push(v@[i as int]@));
        i = i + 1;
    }
    assert(hunks_view(v@).take(v@.len() as int) =~= hunks_view(v@));
    r
}

// ---------------------------------------------------------------------------
// Paths in diff headers and numstat lines
// ---------------------------------------------------------------------------

/// The path named by a `--- ` or `+++ ` diff header line: the text after
/// the four-character marker, trimmed, with trailing tabs removed and
/// trimmed again; `None` for `/dev/null`; an `a/` or `b/` prefix dropped.
pub open spec fn diff_path(line: Seq<char>) -> Option<Seq<char>> {
    if line.len() < 4 {
        None
    } else {
        let path = trim(crate::split::trim_end_char(trim(line.skip(4)), '\t'));
        if path == "/dev/null"@ {
            None
        } else if has_prefix(path, "a/"@) || has_prefix(path, "b/"@) {
            Some(path.skip(2))
        } else {
            Some(path)
        }
    }
}

/// The path named by a `--- ` or `+++ ` line whose first four characters
/// are single-byte.
pub fn parse_diff_path(line: &[char]) -> (r: Option<Vec<char>>)
    ensures
        match r {
            Some(p) => diff_path(line@) == Some(p@),
            None => diff_path(line@) is None,
        },
{
    if line.len() < 4 {
        return None;
    }
    let tail = slice_chars(line, 4, line.len());
    let t1 = trim_chars(&tail);
    let t2 = crate::split::trim_end_char_chars(&t1, '\t');
    let path = trim_chars(&t2);
    let null = chars_of("/dev/null");
    let a = chars_of("a/");
    let b = chars_of("b/");
    proof {
        reveal_strlit("a/");
        reveal_strlit("b/");
    }
    if chars_eq(&path, &null) {
        None
    } else if starts_with(&path, &a) || starts_with(&path, &b) {
        let v = slice_chars(&path, 2, path.len());
        assert(v@ =~= path@.skip(2));
        Some(v)
    } else {
        Some(path)
    }
}

/// A count in a `--numstat` line: `-` (binary files) and anything that is
/// not a `u32` count as zero.
pub open spec fn numstat_value(raw: Seq<char>) -> u32 {
    if raw == "-"@ {
        0
    } else {
        match parse_unsigned(raw, u32::MAX as nat) {
            Some(v) => v as u32,
            None => 0,
        }
    }
}

/// A count in a `--numstat` line.
pub fn parse_numstat_value(raw: &[char]) -> (r: u32)
    ensures
        r == numstat_value(raw@),
{
    let dash = chars_of("-");
    if chars_eq(raw, &dash) {
        0
    } else {
        match parse_u32(raw) {
            Some(v) => v,
            None => 0,
        }
    }
}

/// The last position where `p` occurs in `s`.
#[verifier::opaque]
pub open spec fn last_occurrence(s: Seq<char>, p: Seq<char>) -> Option<int> {
    if exists|i: int| occurs_at(s, p, i) {
        Some(choose|i: int| occurs_at(s, p, i) && forall|j: int| i < j ==> !occurs_at(s, p, j))
    } else {
        None
    }
}

proof fn lemma_last_occurrence_is(s: Seq<char>, p: Seq<char>, i: int)
    requires
        occurs_at(s, p, i),
        forall|j: int| i < j ==> !occurs_at(s, p, j),
    ensures
        last_occurrence(s, p) == Some(i),
{
    reveal(last_occurrence);
    let k = choose|k: int| occurs_at(s, p, k) && forall|j: int| k < j ==> !occurs_at(s, p, j);
    assert(occurs_at(s, p, k));
    if k < i {
        assert(!occurs_at(s, p, i));
    }
    if i < k {
        assert(!occurs_at(s, p, k));
    }
}

/// A last occurrence is an occurrence.
pub proof fn lemma_last_occurrence_occurs(s: Seq<char>, p: Seq<char>)
    ensures
        last_occurrence(s, p) matches Some(i) ==> occurs_at(s, p, i),
{
    reveal(last_occurrence);
    if exists|i: int| occurs_at(s, p, i) {
        let i0 = choose|i: int| occurs_at(s, p, i);
        lemma_last_exists(s, p, i0);
    }
}

proof fn lemma_last_exists(s: Seq<char>, p: Seq<char>, i0: int)
    requires
        occurs_at(s, p, i0),
    ensures
        exists|i: int| occurs_at(s, p, i) && forall|j: int| i < j ==> !occurs_at(s, p, j),
    decreases s.len() + 1 - i0,
{
    if exists|j: int| i0 < j && occurs_at(s, p, j) {
        let j = choose|j: int| i0 < j && occurs_at(s, p, j);
        lemma_last_exists(s, p, j);
    }
}

proof fn lemma_last_occurrence_none(s: Seq<char>, p: Seq<char>)
    requires
        forall|j: int| !occurs_at(s, p, j),
    ensures
        last_occurrence(s, p) is None,
{
    reveal(last_occurrence);
}

/// The last position where `p` occurs in `s` (`str::rfind`).
pub fn rfind(s: &[char], p: &[char]) -> (r: Option<usize>)
    ensures
        match r {
            Some(i) => last_occurrence(s@, p@) == Some(i as int),
            None => last_occurrence(s@, p@) is None,
        },
{
    let n = s.len();
    let mut k: usize = n;
    loop
        invariant
            n == s@.len(),
            k <= n,
            forall|j: int| k < j ==> !occurs_at(s@, p@, j),
        decreases k,
    {
        if matches_at(s, p, k) {
            proof {
                lemma_last_occurrence_is(s@, p@, k as int);
            }
            return Some(k);
        }
        if k == 0 {
            proof {
                assert forall|j: int| !occurs_at(s@, p@, j) by {
                    if j >= 0 && j != 0 {
                    }
                }
                lemma_last_occurrence_none(s@, p@);
            }
            return None;
        }
        k = k - 1;
    }
}

/// The new path of a brace rename group such as `{old => new}`: after
/// the `=>` (and one space after it), up to the closing brace or the end.
/// Returns the collected text and what follows the group.
pub open spec fn brace_group(s: Seq<char>, in_new: bool, seg: Seq<char>) -> (Seq<char>, Seq<char>)
    decreases s.len(),
{
    if s.len() == 0 {
        (seg, s)
    } else if s[0] == '}' {
        (seg, s.drop_first())
    } else if in_new {
        brace_group(s.drop_first(), true, seg.push(s[0]))
    } else if s[0] == '=' {
        if s.len() >= 2 && s[1] == '>' {
            if s.len() >= 3 && s[2] == ' ' {
                brace_group(s.skip(3), true, seg)
            } else {
                brace_group(s.skip(2), true, seg)
            }
        } else if s.len() >= 2 {
            brace_group(s.skip(2), false, seg)
        } else {
            brace_group(s.skip(1), false, seg)
        }
    } else {
        brace_group(s.drop_first(), false, seg)
    }
}

/// The rest after a brace group is no longer than the input.
pub proof fn lemma_brace_group_len(s: Seq<char>, in_new: bool, seg: Seq<char>)
    ensures
        brace_group(s, in_new, seg).1.len() <= s.len(),
    decreases s.len(),
{
    if s.len() == 0 {
    } else if s[0] == '}' {
    } else if in_new {
        lemma_brace_group_len(s.drop_first(), true, seg.push(s[0]));
    } else if s[0] == '=' {
        if s.len() >= 2 && s[1] == '>' {
            if s.len() >= 3 && s[2] == ' ' {
                lemma_brace_group_len(s.skip(3), true, seg);
            } else {
                lemma_brace_group_len(s.skip(2), true, seg);
            }
        } else if s.len() >= 2 {
            lemma_brace_group_len(s.skip(2), false, seg);
        } else {
            lemma_brace_group_len(s.skip(1), false, seg);
        }
    } else {
        lemma_brace_group_len(s.drop_first(), false, seg);
    }
}

/// A numstat path with every `{old => new}` group replaced by its trimmed
/// new part, as in `src/{a => b}/f.rs` becoming `src/b/f.rs`.
pub open spec fn brace_rename(s: Seq<char>) -> Seq<char>
    decreases s.len(),
{
    if s.len() == 0 {
        s
    } else if s[0] == '{' {
        let g = brace_group(s.drop_first(), false, Seq::empty());
        proof {
            lemma_brace_group_len(s.drop_first(), false, Seq::empty());
        }
        trim(g.0) + brace_rename(g.1)
    } else {
        seq![s[0]] + brace_rename(s.drop_first())
    }
}

/// The path a `--numstat` line reports after a rename: braces resolved when
/// the line has `{`, `=>` and `}`, otherwise the trimmed text after the last
/// `=>`, otherwise the raw text.
pub open spec fn numstat_path(raw: Seq<char>) -> Seq<char> {
    if raw.contains('{') && contains_seq(raw, "=>"@) && raw.contains('}') {
        brace_rename(raw)
    } else {
        match last_occurrence(raw, "=>"@) {
            Some(i) => trim(raw.skip(i + 2)),
            None => raw,
        }
    }
}

fn brace_group_exec(s: &[char], start: usize) -> (r: (Vec<char>, usize))
    requires
        start <= s@.len(),
    ensures
        start <= r.1 <= s@.len(),
        brace_group(s@.skip(start as int), false, Seq::empty()) == (r.0@, s@.skip(r.1 as int)),
{
    let n = s.len();
    let mut seg: Vec<char> = Vec::new();
    let mut in_new = false;
    let mut i: usize = start;
    while i < n
        invariant
            n == s@.len(),
            start <= i <= n,
            brace_group(s@.skip(start as int), false, Seq::empty()) == brace_group(
                s@.skip(i as int),
                in_new,
                seg@,
            ),
        decreases n - i,
    {
        let ghost t = s@.skip(i as int);
        assert(t[0] == s@[i as int]);
        let c = s[i];
        if c == '}' {
            assert(t.drop_first() =~= s@.skip(i + 1));
            return (seg, i + 1);
        }
        if in_new {
            assert(t.drop_first() =~= s@.skip(i + 1));
            seg.push(c);
            i = i + 1;
        } else if c == '=' {
            if i + 1 < n && s[i + 1] == '>' {
                assert(t[1] == s@[i + 1]);
                if i + 2 < n && s[i + 2] == ' ' {
                    assert(t[2] == s@[i + 2]);
                    assert(t.skip(3) =~= s@.skip(i + 3));
                    i = i + 3;
                } else {
                    assert(t.skip(2) =~= s@.skip(i + 2));
                    i = i + 2;
                }
                in_new = true;
            } else if i + 1 < n {
                assert(t.skip(2) =~= s@.skip(i + 2));
                i = i + 2;
            } else {
                assert(t.skip(1) =~= s@.skip(i + 1));
                i = i + 1;
            }
        } else {
            assert(t.drop_first() =~= s@.skip(i + 1));
            i = i + 1;
        }
    }
    assert(s@.skip(n as int) =~= Seq::<char>::empty());
    (seg, n)
}

/// Resolves every `{old => new}` group of a numstat path.
pub fn normalize_brace_rename(raw: &[char]) -> (r: Vec<char>)
    ensures
        r@ == brace_rename(raw@),
{
    let n = raw.len();
    let mut out: Vec<char> = Vec::new();
    let mut i: usize = 0;
    assert(raw@.skip(0) =~= raw@);
    while i < n
        invariant
            n == raw@.len(),
            i <= n,
            out@ + brace_rename(raw@.skip(i as int)) == brace_rename(raw@),
        decreases n - i,
    {
        let ghost t = raw@.skip(i as int);
        assert(t[0] == raw@[i as int]);
        if raw[i] == '{' {
            assert(t.drop_first() =~= raw@.skip(i + 1));
            let (seg, next) = brace_group_exec(raw, i + 1);
            let tseg = trim_chars(&seg);
            let ghost before = out@;
            crate::text::push_all(&mut out, &tseg);
            assert(before + brace_rename(t) =~= out@ + brace_rename(raw@.skip(next as int)));
            i = next;
        } else {
            assert(t.drop_first() =~= raw@.skip(i + 1));
            let ghost before = out@;
            out.push(raw[i]);
            assert(before + brace_rename(t) =~= out@ + brace_rename(raw@.skip(i + 1)));
            i = i + 1;
        }
    }
    assert(raw@.skip(n as int) =~= Seq::<char>::empty());
    assert(out@ + brace_rename(Seq::<char>::empty()) =~= out@);
    out
}

/// The path a `--numstat` line reports.
pub fn normalize_numstat_path(raw: &[char]) -> (r: Vec<char>)
    ensures
        r@ == numstat_path(raw@),
{
    let arrow = chars_of("=>");
    let has_open = crate::text::position_of(raw, '{').is_some();
    let has_close = crate::text::position_of(raw, '}').is_some();
    proof {
        reveal_strlit("=>");
        if raw@.contains('{') {
            let k = choose|k: int| 0 <= k < raw@.len() && raw@[k] == '{';
        }
        if raw@.contains('}') {
            let k = choose|k: int| 0 <= k < raw@.len() && raw@[k] == '}';
        }
    }
    if has_open && contains(raw, &arrow) && has_close {
        normalize_brace_rename(raw)
    } else {
        match rfind(raw, &arrow) {
            Some(idx) => {
                proof {
                    lemma_last_occurrence_occurs(raw@, arrow@);
                }
                let n = raw.len();
                assert(idx + 2 <= n);
                let tail = slice_chars(raw, idx + 2, n);
                assert(tail@ =~= raw@.skip(idx + 2));
                trim_chars(&tail)
            },
            None => slice_chars(raw, 0, raw.len()),
        }
    }
}

} // verus!
