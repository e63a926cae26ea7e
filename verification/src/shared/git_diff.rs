//! Reading a unified diff of tracked files (`git diff --unified=3 HEAD`)
//! into the hunks of each file.

use vstd::prelude::*;

use crate::shared::git::{copy_hunks, diff_path, hunks_view, parse_diff_path, DiffHunk, GitError, HunkView};
use crate::split::{lines, lines_of_str, vecs_view};
use crate::text::{chars_of, has_prefix, opt_view, push_string, starts_with, string_of, strings_view};

verus! {

/// The hunks of each file, in the order the files first appear.
pub type FileHunks = Seq<(Seq<char>, Seq<HunkView>)>;

/// The position of `file` in the table.
pub open spec fn file_index(files: FileHunks, file: Seq<char>) -> Option<int>
    decreases files.len(),
{
    if files.len() == 0 {
        None
    } else if files[0].0 == file {
        Some(0)
    } else {
        match file_index(files.drop_first(), file) {
            Some(i) => Some(i + 1),
            None => None,
        }
    }
}

/// What `file_index` gives: the first entry for `file`, if any.
pub proof fn lemma_file_index(files: FileHunks, file: Seq<char>)
    ensures
        match file_index(files, file) {
            Some(i) => 0 <= i < files.len() && files[i].0 == file && forall|j: int|
                0 <= j < i ==> files[j].0 != file,
            None => forall|j: int| 0 <= j < files.len() ==> files[j].0 != file,
        },
    decreases files.len(),
{
    if files.len() > 0 && files[0].0 != file {
        lemma_file_index(files.drop_first(), file);
        assert forall|j: int| 1 <= j < files.len() implies files[j] == files.drop_first()[j - 1] by {}
    }
}

/// The table with `h` appended to the hunks of `file` (the entry created
/// when missing).
pub open spec fn add_hunk(files: FileHunks, file: Seq<char>, h: HunkView) -> FileHunks {
    match file_index(files, file) {
        Some(i) => files.update(i, (file, files[i].1.push(h))),
        None => files.push((file, seq![h])),
    }
}

/// The hunks recorded for `file`.
pub open spec fn hunks_of(files: FileHunks, file: Seq<char>) -> Option<Seq<HunkView>> {
    match file_index(files, file) {
        Some(i) => Some(files[i].1),
        None => None,
    }
}

/// Progress through the lines of a diff.
pub struct DiffScan {
    pub files: FileHunks,
    pub current_file: Option<Seq<char>>,
    pub header: Option<Seq<char>>,
    pub lines: Seq<Seq<char>>,
    pub old_path: Option<Seq<char>>,
}

/// Ends the hunk being read: it is recorded when both a file and a header
/// are known, and dropped otherwise.
pub open spec fn finish_hunk(st: DiffScan) -> DiffScan {
    DiffScan {
        files: match (st.current_file, st.header) {
            (Some(f), Some(h)) => add_hunk(st.files, f, HunkView { header: h, lines: st.lines }),
            _ => st.files,
        },
        header: None,
        lines: Seq::empty(),
        ..st
    }
}

/// Reads one line of a diff.
pub open spec fn diff_step(st: DiffScan, line: Seq<char>) -> DiffScan {
    if has_prefix(line, "diff --git "@) {
        DiffScan { current_file: None, old_path: None, ..finish_hunk(st) }
    } else if has_prefix(line, "--- "@) {
        DiffScan { old_path: diff_path(line), ..st }
    } else if has_prefix(line, "+++ "@) {
        DiffScan {
            current_file: match diff_path(line) {
                Some(p) => Some(p),
                None => st.old_path,
            },
            ..st
        }
    } else if has_prefix(line, "@@"@) {
        DiffScan { header: Some(line), ..finish_hunk(st) }
    } else if st.header is Some {
        DiffScan { lines: st.lines.push(line), ..st }
    } else {
        st
    }
}

/// Reads every line of `ls` in order.
pub open spec fn diff_scan(ls: Seq<Seq<char>>, st: DiffScan) -> DiffScan
    decreases ls.len(),
{
    if ls.len() == 0 {
        st
    } else {
        diff_scan(ls.drop_first(), diff_step(st, ls[0]))
    }
}

/// The hunks of each file of a unified diff.
pub open spec fn diff_hunks(diff: Seq<char>) -> FileHunks {
    finish_hunk(
        diff_scan(
            lines(diff),
            DiffScan {
                files: Seq::empty(),
                current_file: None,
                header: None,
                lines: Seq::empty(),
                old_path: None,
            },
        ),
    ).files
}

/// A line inside a hunk: none of the headers that end or start one.
pub open spec fn plain_line(line: Seq<char>) -> bool {
    &&& !has_prefix(line, "diff --git "@)
    &&& !has_prefix(line, "--- "@)
    &&& !has_prefix(line, "+++ "@)
    &&& !has_prefix(line, "@@"@)
}

/// Adding a hunk for `file` makes it the last hunk recorded for `file`.
pub proof fn lemma_add_hunk_records(files: FileHunks, file: Seq<char>, h: HunkView)
    ensures
        hunks_of(add_hunk(files, file, h), file) is Some,
        hunks_of(add_hunk(files, file, h), file)->0.last() == h,
{
    lemma_file_index(files, file);
    let after = add_hunk(files, file, h);
    lemma_file_index(after, file);
    match file_index(files, file) {
        Some(i) => {
            assert(after[i].0 == file);
            match file_index(after, file) {
                Some(k) => {
                    if k < i {
                        assert(after[k] == files[k]);
                    }
                    if k > i {
                        assert(after[i].0 == file);
                    }
                },
                None => {
                    assert(after[i].0 == file);
                },
            }
        },
        None => {
            assert(after[files.len() as int].0 == file);
            match file_index(after, file) {
                Some(k) => {
                    if k < files.len() {
                        assert(after[k] == files[k]);
                    }
                },
                None => {},
            }
        },
    }
}

/// A string with a non-empty prefix starts with the prefix's first
/// character.
proof fn lemma_prefix_first(s: Seq<char>, p: Seq<char>)
    requires
        has_prefix(s, p),
        p.len() > 0,
    ensures
        s.len() > 0 && s[0] == p[0],
{
    assert(s.subrange(0, p.len() as int)[0] == s[0]);
}

/// Lines inside a hunk are gathered into it, in order, and change nothing
/// else.
proof fn lemma_plain_lines(body: Seq<Seq<char>>, st: DiffScan)
    requires
        st.header is Some,
        forall|i: int| 0 <= i < body.len() ==> plain_line(#[trigger] body[i]),
    ensures
        diff_scan(body, st) == (DiffScan { lines: st.lines + body, ..st }),
    decreases body.len(),
{
    if body.len() == 0 {
        assert(st.lines + body =~= st.lines);
    } else {
        assert(plain_line(body[0]));
        let next = diff_step(st, body[0]);
        assert(next == (DiffScan { lines: st.lines.push(body[0]), ..st }));
        assert forall|i: int| 0 <= i < body.drop_first().len() implies plain_line(
            #[trigger] body.drop_first()[i],
        ) by {
            assert(body.drop_first()[i] == body[i + 1]);
        }
        lemma_plain_lines(body.drop_first(), next);
        assert(st.lines.push(body[0]) + body.drop_first() =~= st.lines + body);
    }
}

/// The hunks that follow a `+++ ` line naming a path `p` are recorded
/// under `p`, whatever the `--- ` line before it named (a rename files its
/// edits under the new name): the hunk is the last one recorded for `p`,
/// with its header and lines.
pub proof fn lemma_hunks_filed_under_new_path(
    st: DiffScan,
    plus: Seq<char>,
    p: Seq<char>,
    header: Seq<char>,
    body: Seq<Seq<char>>,
)
    requires
        has_prefix(plus, "+++ "@),
        diff_path(plus) == Some(p),
        has_prefix(header, "@@"@),
        forall|i: int| 0 <= i < body.len() ==> plain_line(#[trigger] body[i]),
    ensures
        ({
            let end = finish_hunk(diff_scan(seq![plus, header] + body, st));
            &&& hunks_of(end.files, p) is Some
            &&& hunks_of(end.files, p)->0.last() == (HunkView { header, lines: body })
        }),
{
    reveal_strlit("+++ ");
    reveal_strlit("--- ");
    reveal_strlit("diff --git ");
    reveal_strlit("@@");
    lemma_prefix_first(plus, "+++ "@);
    lemma_prefix_first(header, "@@"@);
    assert("+++ "@[0] == '+');
    assert("@@"@[0] == '@');
    if has_prefix(plus, "diff --git "@) {
        lemma_prefix_first(plus, "diff --git "@);
    }
    if has_prefix(plus, "--- "@) {
        lemma_prefix_first(plus, "--- "@);
    }
    if has_prefix(header, "diff --git "@) {
        lemma_prefix_first(header, "diff --git "@);
    }
    if has_prefix(header, "--- "@) {
        lemma_prefix_first(header, "--- "@);
    }
    if has_prefix(header, "+++ "@) {
        lemma_prefix_first(header, "+++ "@);
    }
    assert(!has_prefix(plus, "diff --git "@));
    assert(!has_prefix(plus, "--- "@));
    assert(!has_prefix(header, "diff --git "@));
    assert(!has_prefix(header, "--- "@));
    assert(!has_prefix(header, "+++ "@));
    let ls = seq![plus, header] + body;
    let s1 = diff_step(st, plus);
    assert(s1.current_file == Some(p));
    assert(ls[0] == plus);
    assert(ls.drop_first() =~= seq![header] + body);
    let s2 = diff_step(s1, header);
    assert((seq![header] + body)[0] == header);
    assert((seq![header] + body).drop_first() =~= body);
    assert(s2.current_file == Some(p));
    assert(s2.header == Some(header));
    assert(s2.lines == Seq::<Seq<char>>::empty());
    lemma_plain_lines(body, s2);
    let s3 = diff_scan(body, s2);
    assert(s3.lines =~= body);
    let ls2 = seq![header] + body;
    assert(ls.len() > 0);
    assert(diff_scan(ls, st) == diff_scan(ls.drop_first(), diff_step(st, ls[0])));
    assert(ls.drop_first() == ls2);
    assert(ls2.len() > 0);
    assert(diff_scan(ls2, s1) == diff_scan(ls2.drop_first(), diff_step(s1, ls2[0])));
    assert(ls2.drop_first() == body);
    assert(diff_scan(ls, st) == s3);
    lemma_add_hunk_records(s3.files, p, HunkView { header, lines: body });
}

/// When the `+++ ` side is `/dev/null` (a deleted file), the hunks that
/// follow are recorded under the path the `--- ` line named.
pub proof fn lemma_deleted_file_hunks_under_old_path(
    st: DiffScan,
    plus: Seq<char>,
    old: Seq<char>,
    header: Seq<char>,
    body: Seq<Seq<char>>,
)
    requires
        has_prefix(plus, "+++ "@),
        diff_path(plus) is None,
        st.old_path == Some(old),
        has_prefix(header, "@@"@),
        forall|i: int| 0 <= i < body.len() ==> plain_line(#[trigger] body[i]),
    ensures
        ({
            let end = finish_hunk(diff_scan(seq![plus, header] + body, st));
            &&& hunks_of(end.files, old) is Some
            &&& hunks_of(end.files, old)->0.last() == (HunkView { header, lines: body })
        }),
{
    reveal_strlit("+++ ");
    reveal_strlit("--- ");
    reveal_strlit("diff --git ");
    reveal_strlit("@@");
    lemma_prefix_first(plus, "+++ "@);
    lemma_prefix_first(header, "@@"@);
    assert("+++ "@[0] == '+');
    assert("@@"@[0] == '@');
    if has_prefix(plus, "diff --git "@) {
        lemma_prefix_first(plus, "diff --git "@);
    }
    if has_prefix(plus, "--- "@) {
        lemma_prefix_first(plus, "--- "@);
    }
    if has_prefix(header, "diff --git "@) {
        lemma_prefix_first(header, "diff --git "@);
    }
    if has_prefix(header, "--- "@) {
        lemma_prefix_first(header, "--- "@);
    }
    if has_prefix(header, "+++ "@) {
        lemma_prefix_first(header, "+++ "@);
    }
    assert(!has_prefix(plus, "diff --git "@));
    assert(!has_prefix(plus, "--- "@));
    assert(!has_prefix(header, "diff --git "@));
    assert(!has_prefix(header, "--- "@));
    assert(!has_prefix(header, "+++ "@));
    let ls = seq![plus, header] + body;
    let s1 = diff_step(st, plus);
    assert(s1.current_file == Some(old));
    assert(ls[0] == plus);
    assert(ls.drop_first() =~= seq![header] + body);
    let s2 = diff_step(s1, header);
    assert((seq![header] + body)[0] == header);
    assert((seq![header] + body).drop_first() =~= body);
    lemma_plain_lines(body, s2);
    let s3 = diff_scan(body, s2);
    assert(s3.lines =~= body);
    let ls2 = seq![header] + body;
    assert(ls.len() > 0);
    assert(diff_scan(ls, st) == diff_scan(ls.drop_first(), diff_step(st, ls[0])));
    assert(ls.drop_first() == ls2);
    assert(ls2.len() > 0);
    assert(diff_scan(ls2, s1) == diff_scan(ls2.drop_first(), diff_step(s1, ls2[0])));
    assert(ls2.drop_first() == body);
    assert(diff_scan(ls, st) == s3);
    lemma_add_hunk_records(s3.files, old, HunkView { header, lines: body });
}

/// The mathematical values of a table of hunks by file.
pub open spec fn files_view(v: Seq<(String, Vec<DiffHunk>)>) -> FileHunks {
    Seq::new(v.len(), |i: int| (v[i].0@, hunks_view(v[i].1@)))
}

fn find_file(files: &Vec<(String, Vec<DiffHunk>)>, file: &str) -> (r: Option<usize>)
    ensures
        match r {
            Some(i) => file_index(files_view(files@), file@) == Some(i as int),
            None => file_index(files_view(files@), file@) is None,
        },
{
    let ghost fv = files_view(files@);
    let mut i: usize = 0;
    while i < files.len()
        invariant
            i <= files@.len(),
            fv == files_view(files@),
            forall|j: int| 0 <= j < i ==> fv[j].0 != file@,
        decreases files@.len() - i,
    {
        if crate::text::str_eq(files[i].0.as_str(), file) {
            proof {
                lemma_file_index(fv, file@);
                match file_index(fv, file@) {
                    Some(k) => {
                        if k < i {
                        }
                        if k > i {
                            assert(fv[i as int].0 == file@);
                        }
                    },
                    None => {
                        assert(fv[i as int].0 == file@);
                    },
                }
            }
            return Some(i);
        }
        i = i + 1;
    }
    proof {
        lemma_file_index(fv, file@);
        if file_index(fv, file@) is Some {
            let k = file_index(fv, file@)->0;
            assert(fv[k].0 == file@);
        }
    }
    None
}

fn add_hunk_exec(files: &mut Vec<(String, Vec<DiffHunk>)>, file: &str, h: DiffHunk)
    ensures
        files_view(final(files)@) == add_hunk(files_view(old(files)@), file@, h@),
{
    let ghost fv = files_view(files@);
    match find_file(files, file) {
        Some(i) => {
            proof {
                lemma_file_index(fv, file@);
            }
            let mut hs = copy_hunks(&files[i].1);
            let ghost hv = h@;
            hs.push(h);
            assert(hunks_view(hs@) =~= fv[i as int].1.push(hv));
            files.set(i, (crate::text::owned(file), hs));
            assert(files_view(files@) =~= fv.update(i as int, (file@, fv[i as int].1.push(hv))));
        },
        None => {
            let ghost hv = h@;
            let mut hs: Vec<DiffHunk> = Vec::new();
            hs.push(h);
            assert(hunks_view(hs@) =~= seq![hv]);
            files.push((crate::text::owned(file), hs));
            assert(files_view(files@) =~= fv.push((file@, seq![hv])));
        },
    }
}

/// The state of a diff scan held in executable values.
struct DiffState {
    files: Vec<(String, Vec<DiffHunk>)>,
    current_file: Option<String>,
    header: Option<String>,
    lines: Vec<String>,
    old_path: Option<String>,
}

impl DiffState {
    spec fn view_scan(&self) -> DiffScan {
        DiffScan {
            files: files_view(self.files@),
            current_file: opt_view(self.current_file),
            header: opt_view(self.header),
            lines: strings_view(self.lines@),
            old_path: opt_view(self.old_path),
        }
    }
}

fn finish_hunk_exec(st: &mut DiffState)
    ensures
        final(st).view_scan() == finish_hunk(old(st).view_scan()),
{
    let header = st.header.take();
    let mut lines: Vec<String> = Vec::new();
    std::mem::swap(&mut lines, &mut st.lines);
    assert(strings_view(st.lines@) =~= Seq::<Seq<char>>::empty());
    match (&st.current_file, header) {
        (Some(f), Some(h)) => {
            let f2 = f.clone();
            let hunk = DiffHunk { header: h, lines };
            add_hunk_exec(&mut st.files, f2.as_str(), hunk);
        },
        _ => {},
    }
}

/// The hunks of each file of a unified diff of tracked files, in the order
/// the files first appear.
pub fn parse_diff_output(diff: &str) -> (r: Result<Vec<(String, Vec<DiffHunk>)>, GitError>)
    ensures
        match r {
            Ok(files) => files_view(files@) == diff_hunks(diff@),
            Err(_) => false,
        },
{
    let ls = lines_of_str(diff);
    let ghost all = vecs_view(ls@);
    let p_diff = chars_of("diff --git ");
    let p_old = chars_of("--- ");
    let p_new = chars_of("+++ ");
    let p_hunk = chars_of("@@");
    let mut st = DiffState {
        files: Vec::new(),
        current_file: None,
        header: None,
        lines: Vec::new(),
        old_path: None,
    };
    let ghost init = st.view_scan();
    assert(files_view(st.files@) =~= Seq::<(Seq<char>, Seq<HunkView>)>::empty());
    assert(strings_view(st.lines@) =~= Seq::<Seq<char>>::empty());
    assert(all.skip(0) =~= all);
    let mut i: usize = 0;
    while i < ls.len()
        invariant
            i <= ls@.len(),
            all == vecs_view(ls@),
            all == lines(diff@),
            init == (DiffScan {
                files: Seq::empty(),
                current_file: None,
                header: None,
                lines: Seq::empty(),
                old_path: None,
            }),
            p_diff@ == "diff --git "@,
            p_old@ == "--- "@,
            p_new@ == "+++ "@,
            p_hunk@ == "@@"@,
            diff_scan(all, init) == diff_scan(all.skip(i as int), st.view_scan()),
        decreases ls@.len() - i,
    {
        assert(all.skip(i as int)[0] == ls@[i as int]@);
        assert(all.skip(i as int).drop_first() =~= all.skip(i + 1));
        let line = &ls[i];
        if starts_with(line, &p_diff) {
            finish_hunk_exec(&mut st);
            st.current_file = None;
            st.old_path = None;
        } else if starts_with(line, &p_old) {
            st.old_path = match parse_diff_path(line) {
                Some(p) => Some(string_of(&p)),
                None => None,
            };
        } else if starts_with(line, &p_new) {
            match parse_diff_path(line) {
                Some(p) => {
                    st.current_file = Some(string_of(&p));
                },
                None => {
                    st.current_file = st.old_path.clone();
                },
            }
        } else if starts_with(line, &p_hunk) {
            finish_hunk_exec(&mut st);
            st.header = Some(string_of(line));
        } else if st.header.is_some() {
            push_string(&mut st.lines, string_of(line));
        }
        i = i + 1;
    }
    assert(all.skip(i as int) =~= Seq::<Seq<char>>::empty());
    finish_hunk_exec(&mut st);
    Ok(st.files)
}

/// The hunks recorded for `file`, copied.
pub fn hunks_for(files: &Vec<(String, Vec<DiffHunk>)>, file: &str) -> (r: Option<Vec<DiffHunk>>)
    ensures
        match r {
            Some(h) => hunks_of(files_view(files@), file@) == Some(hunks_view(h@)),
            None => hunks_of(files_view(files@), file@) is None,
        },
{
    proof {
        lemma_file_index(files_view(files@), file@);
    }
    match find_file(files, file) {
        Some(i) => {
            let h = copy_hunks(&files[i].1);
            assert(files_view(files@)[i as int].1 == hunks_view(files@[i as int].1@));
            Some(h)
        },
        None => None,
    }
}

} // verus!
