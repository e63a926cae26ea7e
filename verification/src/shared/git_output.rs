//! Reading the output of `git worktree list --porcelain`,
//! `git diff --name-only`, `git diff --numstat` and of a `--no-index` diff
//! of an untracked file.

use vstd::prelude::*;

use crate::paths::{file_name, file_name_of};
use crate::shared::git::{
    hunks_view, numstat_path, numstat_value, normalize_numstat_path, parse_numstat_value,
    DiffHunk, HunkView,
};
use crate::split::{
    lines, lines_of, lines_of_str, split_chars, split_on, split_on_pattern, split_pattern,
    strip_prefix, strip_prefix_chars, vecs_view,
};
use crate::text::{chars_of, has_prefix, is_blank, push_string, starts_with, string_of, strings_view, trim, trim_chars};

verus! {

// ---------------------------------------------------------------------------
// `git worktree list --porcelain`
// ---------------------------------------------------------------------------

/// The path of the first `worktree <path>` line among `ls`, trimmed.
pub open spec fn block_worktree(ls: Seq<Seq<char>>) -> Option<Seq<char>>
    decreases ls.len(),
{
    if ls.len() == 0 {
        None
    } else {
        match strip_prefix(ls[0], "worktree "@) {
            Some(rest) => Some(trim(rest)),
            None => block_worktree(ls.drop_first()),
        }
    }
}

/// The worktree path of every block that has one, in order.
pub open spec fn block_paths(blocks: Seq<Seq<char>>) -> Seq<Seq<char>>
    decreases blocks.len(),
{
    if blocks.len() == 0 {
        Seq::empty()
    } else {
        (match block_worktree(lines(blocks[0])) {
            Some(p) => seq![p],
            None => Seq::empty(),
        }) + block_paths(blocks.drop_first())
    }
}

/// The worktree paths listed by `git worktree list --porcelain`: blocks
/// separated by blank lines, each contributing its `worktree` line.
pub open spec fn worktree_list(output: Seq<char>) -> Seq<Seq<char>> {
    block_paths(split_on_pattern(output, "\n\n"@))
}

fn block_worktree_exec(ls: &Vec<Vec<char>>) -> (r: Option<Vec<char>>)
    ensures
        match r {
            Some(p) => block_worktree(vecs_view(ls@)) == Some(p@),
            None => block_worktree(vecs_view(ls@)) is None,
        },
{
    let prefix = chars_of("worktree ");
    let ghost all = vecs_view(ls@);
    let mut i: usize = 0;
    assert(all.skip(0) =~= all);
    while i < ls.len()
        invariant
            i <= ls@.len(),
            all == vecs_view(ls@),
            prefix@ == "worktree "@,
            block_worktree(all) == block_worktree(all.skip(i as int)),
        decreases ls@.len() - i,
    {
        assert(all.skip(i as int)[0] == ls@[i as int]@);
        assert(all.skip(i as int).drop_first() =~= all.skip(i + 1));
        match strip_prefix_chars(&ls[i], &prefix) {
            Some(rest) => {
                return Some(trim_chars(&rest));
            },
            None => {},
        }
        i = i + 1;
    }
    assert(all.skip(i as int) =~= Seq::<Seq<char>>::empty());
    None
}

/// The worktree paths listed by `git worktree list --porcelain`.
pub fn parse_worktree_list(output: &str) -> (r: Vec<String>)
    ensures
        strings_view(r@) == worktree_list(output@),
{
    let s = chars_of(output);
    let sep = chars_of("\n\n");
    proof {
        reveal_strlit("\n\n");
    }
    let blocks = split_pattern(&s, &sep);
    let ghost all = vecs_view(blocks@);
    let mut out: Vec<String> = Vec::new();
    let mut i: usize = 0;
    assert(all.skip(0) =~= all);
    assert(strings_view(out@) =~= Seq::<Seq<char>>::empty());
    while i < blocks.len()
        invariant
            i <= blocks@.len(),
            all == vecs_view(blocks@),
            strings_view(out@) + block_paths(all.skip(i as int)) == block_paths(all),
        decreases blocks@.len() - i,
    {
        assert(all.skip(i as int)[0] == blocks@[i as int]@);
        assert(all.skip(i as int).drop_first() =~= all.skip(i + 1));
        let ls = lines_of(&blocks[i]);
        let ghost before = strings_view(out@);
        match block_worktree_exec(&ls) {
            Some(p) => {
                push_string(&mut out, string_of(&p));
                assert(before + block_paths(all.skip(i as int)) =~= strings_view(out@)
                    + block_paths(all.skip(i + 1)));
            },
            None => {
                assert(before + block_paths(all.skip(i as int)) =~= strings_view(out@)
                    + block_paths(all.skip(i + 1)));
            },
        }
        i = i + 1;
    }
    assert(all.skip(i as int) =~= Seq::<Seq<char>>::empty());
    assert(strings_view(out@) + block_paths(Seq::<Seq<char>>::empty()) =~= strings_view(out@));
    out
}

/// The id of a worktree: the last component of its path when it names
/// something, otherwise the whole path.
pub open spec fn worktree_id(path: Seq<char>) -> Seq<char> {
    match file_name(path) {
        Some(n) => n,
        None => path,
    }
}

/// The id of the worktree at `path`.
pub fn derive_worktree_id(path: &str) -> (id: String)
    ensures
        id@ == worktree_id(path@),
{
    let p = chars_of(path);
    match file_name_of(&p) {
        Some(n) => string_of(&n),
        None => string_of(&p),
    }
}

// ---------------------------------------------------------------------------
// `git diff --name-only --diff-filter=U`
// ---------------------------------------------------------------------------

/// The trimmed non-empty lines of `ls`.
pub open spec fn nonblank_trimmed(ls: Seq<Seq<char>>) -> Seq<Seq<char>>
    decreases ls.len(),
{
    if ls.len() == 0 {
        Seq::empty()
    } else {
        (if trim(ls[0]).len() == 0 {
            Seq::empty()
        } else {
            seq![trim(ls[0])]
        }) + nonblank_trimmed(ls.drop_first())
    }
}

/// The files listed one per line, trimmed, blank lines skipped.
pub open spec fn listed_files(output: Seq<char>) -> Seq<Seq<char>> {
    nonblank_trimmed(lines(output))
}

/// The files listed one per line, trimmed, blank lines skipped.
pub fn parse_file_list(output: &str) -> (r: Vec<String>)
    ensures
        strings_view(r@) == listed_files(output@),
{
    let ls = lines_of_str(output);
    let ghost all = vecs_view(ls@);
    let mut out: Vec<String> = Vec::new();
    let mut i: usize = 0;
    assert(all.skip(0) =~= all);
    assert(strings_view(out@) =~= Seq::<Seq<char>>::empty());
    while i < ls.len()
        invariant
            i <= ls@.len(),
            all == vecs_view(ls@),
            all == lines(output@),
            strings_view(out@) + nonblank_trimmed(all.skip(i as int)) == nonblank_trimmed(all),
        decreases ls@.len() - i,
    {
        assert(all.skip(i as int)[0] == ls@[i as int]@);
        assert(all.skip(i as int).drop_first() =~= all.skip(i + 1));
        let t = trim_chars(&ls[i]);
        let ghost before = strings_view(out@);
        if t.len() > 0 {
            push_string(&mut out, string_of(&t));
        }
        assert(before + nonblank_trimmed(all.skip(i as int)) =~= strings_view(out@)
            + nonblank_trimmed(all.skip(i + 1)));
        i = i + 1;
    }
    assert(all.skip(i as int) =~= Seq::<Seq<char>>::empty());
    assert(strings_view(out@) + nonblank_trimmed(Seq::<Seq<char>>::empty()) =~= strings_view(
        out@,
    ));
    out
}

// ---------------------------------------------------------------------------
// `git diff --numstat`
// ---------------------------------------------------------------------------

/// Path, additions and deletions of one `--numstat` line: tab-separated
/// fields, missing counts read as `0`, a missing path as empty.
pub open spec fn numstat_entry(line: Seq<char>) -> (Seq<char>, u32, u32) {
    let parts = split_on(line, '\t');
    let del = if parts.len() > 1 {
        parts[1]
    } else {
        "0"@
    };
    let path = if parts.len() > 2 {
        parts[2]
    } else {
        Seq::empty()
    };
    (numstat_path(path), numstat_value(parts[0]), numstat_value(del))
}

/// One entry per line of `git diff --numstat` output, in order.
pub open spec fn numstat_table(output: Seq<char>) -> Seq<(Seq<char>, u32, u32)> {
    Seq::new(lines(output).len(), |i: int| numstat_entry(lines(output)[i]))
}

/// The counts recorded for `path`, the last line for it winning;
/// `(0, 0)` when no line names it.
pub open spec fn numstat_lookup(table: Seq<(Seq<char>, u32, u32)>, path: Seq<char>) -> (u32, u32)
    decreases table.len(),
{
    if table.len() == 0 {
        (0, 0)
    } else if table.last().0 == path {
        (table.last().1, table.last().2)
    } else {
        numstat_lookup(table.drop_last(), path)
    }
}

/// The mathematical values of a numstat table.
pub open spec fn numstat_view(v: Seq<(String, u32, u32)>) -> Seq<(Seq<char>, u32, u32)> {
    Seq::new(v.len(), |i: int| (v[i].0@, v[i].1, v[i].2))
}

fn numstat_entry_exec(line: &[char]) -> (r: (String, u32, u32))
    ensures
        (r.0@, r.1, r.2) == numstat_entry(line@),
{
    let parts = split_chars(line, '\t');
    proof {
        crate::split::lemma_split_nonempty(line@, '\t');
    }
    let zero = chars_of("0");
    let empty: Vec<char> = Vec::new();
    let add = parse_numstat_value(&parts[0]);
    let del = if parts.len() > 1 {
        parse_numstat_value(&parts[1])
    } else {
        parse_numstat_value(&zero)
    };
    let path = if parts.len() > 2 {
        normalize_numstat_path(&parts[2])
    } else {
        assert(empty@ =~= Seq::<char>::empty());
        normalize_numstat_path(&empty)
    };
    (string_of(&path), add, del)
}

/// The entries of `git diff --numstat` output.
pub fn parse_numstat(output: &str) -> (r: Vec<(String, u32, u32)>)
    ensures
        numstat_view(r@) == numstat_table(output@),
{
    let ls = lines_of_str(output);
    let mut out: Vec<(String, u32, u32)> = Vec::new();
    let mut i: usize = 0;
    assert(numstat_table(output@).len() == vecs_view(ls@).len());
    while i < ls.len()
        invariant
            i <= ls@.len(),
            vecs_view(ls@) == lines(output@),
            numstat_table(output@).len() == ls@.len(),
            out@.len() == i,
            numstat_view(out@) =~= numstat_table(output@).take(i as int),
        decreases ls@.len() - i,
    {
        let e = numstat_entry_exec(&ls[i]);
        assert(vecs_view(ls@)[i as int] == ls@[i as int]@);
        assert(lines(output@)[i as int] == ls@[i as int]@);
        assert(numstat_table(output@)[i as int] == (e.0@, e.1, e.2));
        let ghost before = out@;
        let ghost ev = (e.0@, e.1, e.2);
        out.push(e);
        assert(out@.len() == i + 1);
        assert(numstat_view(out@)[i as int] == ev);
        assert forall|k: int| 0 <= k < i implies numstat_view(out@)[k] == numstat_view(before)[k] by {
            assert(out@[k] == before[k]);
        }
        assert(numstat_view(out@) =~= numstat_table(output@).take(i + 1));
        i = i + 1;
    }
    assert(numstat_table(output@).take(i as int) =~= numstat_table(output@));
    out
}

/// The counts recorded for `path` in a numstat table.
pub fn numstat_for(table: &Vec<(String, u32, u32)>, path: &str) -> (r: (u32, u32))
    ensures
        r == numstat_lookup(numstat_view(table@), path@),
{
    let ghost all = numstat_view(table@);
    let mut j: usize = table.len();
    assert(all.take(j as int) =~= all);
    while j > 0
        invariant
            j <= table@.len(),
            all == numstat_view(table@),
            numstat_lookup(all.take(j as int), path@) == numstat_lookup(all, path@),
        decreases j,
    {
        let (p, a, d) = &table[j - 1];
        assert(all.take(j as int).last() == all[j - 1]);
        if crate::text::str_eq(p.as_str(), path) {
            return (*a, *d);
        }
        assert(all.take(j as int).drop_last() =~= all.take(j - 1));
        j = j - 1;
    }
    (0, 0)
}

/// The counts of a `--no-index` numstat of an untracked file: `(0, 0)` for
/// blank output, otherwise the first two tab-separated fields of the first
/// line.
pub open spec fn untracked_numstat(output: Seq<char>) -> (u32, u32) {
    if is_blank(output) {
        (0, 0)
    } else {
        let first = if lines(output).len() > 0 {
            lines(output)[0]
        } else {
            Seq::empty()
        };
        let parts = split_on(first, '\t');
        (numstat_value(parts[0]), numstat_value(
            if parts.len() > 1 {
                parts[1]
            } else {
                "0"@
            },
        ))
    }
}

/// The counts of a `--no-index` numstat of an untracked file.
pub fn parse_untracked_numstat(output: &str) -> (r: (u32, u32))
    ensures
        r == untracked_numstat(output@),
{
    if crate::text::is_blank_str(output) {
        return (0, 0);
    }
    let ls = lines_of_str(output);
    let first: Vec<char> = if ls.len() > 0 {
        crate::paths::copy_chars(&ls[0])
    } else {
        Vec::new()
    };
    assert(ls.len() > 0 ==> vecs_view(ls@)[0] == ls@[0]@);
    assert(first@ =~= (if lines(output@).len() > 0 {
        lines(output@)[0]
    } else {
        Seq::empty()
    }));
    let parts = split_chars(&first, '\t');
    proof {
        crate::split::lemma_split_nonempty(first@, '\t');
    }
    let add = parse_numstat_value(&parts[0]);
    let del = if parts.len() > 1 {
        parse_numstat_value(&parts[1])
    } else {
        parse_numstat_value(&chars_of("0"))
    };
    (add, del)
}

// ---------------------------------------------------------------------------
// Hunks of a `--no-index` diff of an untracked file
// ---------------------------------------------------------------------------

/// Progress through the lines of a diff: hunks finished so far, and the
/// header and lines of the hunk being read.
pub struct HunkScan {
    pub hunks: Seq<HunkView>,
    pub header: Option<Seq<char>>,
    pub lines: Seq<Seq<char>>,
}

/// Reads one line: `@@` finishes the current hunk and starts another; other
/// lines belong to the current hunk, or are skipped before the first one.
pub open spec fn hunk_step(st: HunkScan, line: Seq<char>) -> HunkScan {
    if has_prefix(line, "@@"@) {
        HunkScan {
            hunks: match st.header {
                Some(h) => st.hunks.push(HunkView { header: h, lines: st.lines }),
                None => st.hunks,
            },
            header: Some(line),
            lines: Seq::empty(),
        }
    } else if st.header is Some {
        HunkScan { lines: st.lines.push(line), ..st }
    } else {
        st
    }
}

/// Reads every line of `ls` in order.
pub open spec fn hunk_scan(ls: Seq<Seq<char>>, st: HunkScan) -> HunkScan
    decreases ls.len(),
{
    if ls.len() == 0 {
        st
    } else {
        hunk_scan(ls.drop_first(), hunk_step(st, ls[0]))
    }
}

/// The hunks of a diff: each `@@` line with the lines up to the next one.
pub open spec fn untracked_hunks(diff: Seq<char>) -> Seq<HunkView> {
    let st = hunk_scan(
        lines(diff),
        HunkScan { hunks: Seq::empty(), header: None, lines: Seq::empty() },
    );
    match st.header {
        Some(h) => st.hunks.push(HunkView { header: h, lines: st.lines }),
        None => st.hunks,
    }
}

/// The hunks of a `--no-index` diff of an untracked file.
pub fn parse_untracked_hunks(diff: &str) -> (r: Vec<DiffHunk>)
    ensures
        hunks_view(r@) == untracked_hunks(diff@),
{
    let ls = lines_of_str(diff);
    let ghost all = vecs_view(ls@);
    let marker = chars_of("@@");
    let mut hunks: Vec<DiffHunk> = Vec::new();
    let mut header: Option<String> = None;
    let mut cur: Vec<String> = Vec::new();
    let ghost init = HunkScan { hunks: Seq::empty(), header: None, lines: Seq::empty() };
    assert(all.skip(0) =~= all);
    assert(hunks_view(hunks@) =~= Seq::<HunkView>::empty());
    assert(strings_view(cur@) =~= Seq::<Seq<char>>::empty());
    let mut i: usize = 0;
    while i < ls.len()
        invariant
            i <= ls@.len(),
            all == vecs_view(ls@),
            all == lines(diff@),
            marker@ == "@@"@,
            hunk_scan(all, init) == hunk_scan(
                all.skip(i as int),
                HunkScan {
                    hunks: hunks_view(hunks@),
                    header: crate::text::opt_view(header),
                    lines: strings_view(cur@),
                },
            ),
        decreases ls@.len() - i,
    {
        assert(all.skip(i as int)[0] == ls@[i as int]@);
        assert(all.skip(i as int).drop_first() =~= all.skip(i + 1));
        let line = &ls[i];
        if starts_with(line, &marker) {
            match header {
                Some(h) => {
                    let lines_done = cur;
                    push_hunk_of(&mut hunks, h, lines_done);
                },
                None => {},
            }
            header = Some(string_of(line));
            cur = Vec::new();
            assert(strings_view(cur@) =~= Seq::<Seq<char>>::empty());
        } else if header.is_some() {
            push_string(&mut cur, string_of(line));
        }
        i = i + 1;
    }
    assert(all.skip(i as int) =~= Seq::<Seq<char>>::empty());
    match header {
        Some(h) => push_hunk_of(&mut hunks, h, cur),
        None => {},
    }
    hunks
}

fn push_hunk_of(hunks: &mut Vec<DiffHunk>, header: String, lines: Vec<String>)
    ensures
        hunks_view(final(hunks)@) == hunks_view(old(hunks)@).push(
            HunkView { header: header@, lines: strings_view(lines@) },
        ),
{
    let h = DiffHunk { header, lines };
    hunks.push(h);
    assert(hunks_view(hunks@) =~= hunks_view(old(hunks)@).push(h@));
}

} // verus!
