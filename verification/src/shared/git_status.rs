//! Reading `git status --porcelain=v2 -b -z`: the branch header lines and
//! one entry per changed, renamed, unmerged or untracked path.

use vstd::prelude::*;

use crate::bytes::{
    byte_position_from, first_byte_index, lemma_first_byte_index, lossy_chars, skip_utf8_bytes,
    skip_utf8_chars, slice_bytes, utf8_lossy,
};
use crate::shared::git::GitError;
use crate::split::{
    next_word, next_word_chars, splitn_chars, splitn_on, strip_prefix, strip_prefix_chars,
    trim_start_matches, trim_start_matches_chars, vecs_view,
};
use crate::text::{chars_of, owned, parse_u32, parse_unsigned, string_of, trim, trim_chars};

verus! {

/// The branch a worktree is on and how far it is from its upstream.
pub struct BranchInfo {
    pub branch: String,
    pub upstream: Option<String>,
    pub ahead: u32,
    pub behind: u32,
}

/// One changed path reported by `git status`.
pub struct StatusEntry {
    pub status_code: String,
    pub path: String,
    pub old_path: Option<String>,
}

/// Everything `git status --porcelain=v2 -b -z` reports.
pub struct ParsedStatus {
    pub branch: BranchInfo,
    pub entries: Vec<StatusEntry>,
}

/// A branch header as mathematical values.
pub struct BranchView {
    pub branch: Seq<char>,
    pub upstream: Option<Seq<char>>,
    pub ahead: u32,
    pub behind: u32,
}

/// A status entry as mathematical values.
pub struct EntryView {
    pub status_code: Seq<char>,
    pub path: Seq<char>,
    pub old_path: Option<Seq<char>>,
}

impl View for BranchInfo {
    type V = BranchView;

    open spec fn view(&self) -> BranchView {
        BranchView {
            branch: self.branch@,
            upstream: crate::text::opt_view(self.upstream),
            ahead: self.ahead,
            behind: self.behind,
        }
    }
}

impl View for StatusEntry {
    type V = EntryView;

    open spec fn view(&self) -> EntryView {
        EntryView {
            status_code: self.status_code@,
            path: self.path@,
            old_path: crate::text::opt_view(self.old_path),
        }
    }
}

/// The mathematical values of a sequence of entries.
pub open spec fn entries_view(v: Seq<StatusEntry>) -> Seq<EntryView> {
    Seq::new(v.len(), |i: int| v[i]@)
}

/// The branch before any header line is read: a detached `HEAD` with no
/// upstream.
pub open spec fn initial_branch() -> BranchView {
    BranchView { branch: "HEAD"@, upstream: None, ahead: 0, behind: 0 }
}

/// A count of a `branch.ab` line: the word without its leading `strip`
/// characters, read as a `u32`, zero when it is not one.
pub open spec fn ab_count(word: Seq<char>, strip: char) -> u32 {
    match parse_unsigned(trim_start_matches(word, seq![strip]), u32::MAX as nat) {
        Some(v) => v as u32,
        None => 0,
    }
}

/// The branch after the `ahead` and `behind` words of `branch.ab +A -B`.
pub open spec fn ab_after(rest: Seq<char>, b: BranchView) -> BranchView {
    match next_word(rest) {
        None => b,
        Some((w1, r1)) => match next_word(r1) {
            None => BranchView { ahead: ab_count(w1, '+'), ..b },
            Some((w2, _)) => BranchView {
                ahead: ab_count(w1, '+'),
                behind: ab_count(w2, '-'),
                ..b
            },
        },
    }
}

/// The branch after a `# branch.*` header line: `branch.head` names the
/// branch, `branch.upstream` the upstream, `branch.ab` the counts; other
/// lines change nothing.
pub open spec fn branch_after(line: Seq<char>, b: BranchView) -> BranchView {
    let content = trim(trim_start_matches(line, "# "@));
    match strip_prefix(content, "branch.head "@) {
        Some(rest) => BranchView { branch: rest, ..b },
        None => match strip_prefix(content, "branch.upstream "@) {
            Some(rest) => BranchView { upstream: Some(rest), ..b },
            None => match strip_prefix(content, "branch.ab "@) {
                Some(rest) => ab_after(rest, b),
                None => b,
            },
        },
    }
}

/// The entry of an ordinary (`1`), unmerged (`u`) or renamed (`2`) line of
/// `n` space-separated fields: its second field is the status, its last the
/// path (which may hold spaces); `None` when the line has fewer fields.
pub open spec fn status_line(line: Seq<char>, n: nat) -> Option<EntryView> {
    let parts = splitn_on(line, ' ', n);
    if parts.len() == n {
        Some(EntryView { status_code: parts[1], path: parts[n - 1], old_path: None })
    } else {
        None
    }
}

/// How reading porcelain output ends: with the branch and entries, with an
/// error message, or in a panic (an untracked record too short to hold a
/// path after `? `).
pub enum PorcelainOutcome {
    Parsed(BranchView, Seq<EntryView>),
    Failed(Seq<char>),
    Panics,
}

/// The entry of an untracked (`?`) record: the line after its first two
/// bytes.
pub open spec fn untracked_entry(line: Seq<char>) -> Option<EntryView> {
    match skip_utf8_bytes(line, 2) {
        Some(p) => Some(EntryView { status_code: "??"@, path: p, old_path: None }),
        None => None,
    }
}

/// Reads the NUL-terminated records of `rest`, starting from branch `b` and
/// entries `es`. Empty records are skipped; each record is decoded lossily
/// and dispatched on its first byte.
pub open spec fn porcelain_from(rest: Seq<u8>, b: BranchView, es: Seq<EntryView>) -> PorcelainOutcome
    decreases rest.len(),
{
    if rest.len() == 0 {
        PorcelainOutcome::Parsed(b, es)
    } else {
        match first_byte_index(rest, 0) {
            None => PorcelainOutcome::Failed("unterminated porcelain record"@),
            Some(e) => {
                proof {
                    lemma_first_byte_index(rest, 0);
                }
                if e <= 0 {
                    porcelain_from(rest.drop_first(), b, es)
                } else {
                    let record = rest.take(e);
                    let after = rest.skip(e + 1);
                    let line = utf8_lossy(record);
                    let tag = record[0];
                    if tag == 35 {
                        porcelain_from(after, branch_after(line, b), es)
                    } else if tag == 49 || tag == 117 {
                        porcelain_from(
                            after,
                            b,
                            match status_line(line, 9) {
                                Some(en) => es.push(en),
                                None => es,
                            },
                        )
                    } else if tag == 50 {
                        match status_line(line, 10) {
                            None => PorcelainOutcome::Failed("invalid rename status line"@),
                            Some(en) => match first_byte_index(after, 0) {
                                None => PorcelainOutcome::Failed("missing old path for rename"@),
                                Some(o) => {
                                    proof {
                                        lemma_first_byte_index(after, 0);
                                    }
                                    porcelain_from(
                                        after.skip(o + 1),
                                        b,
                                        es.push(
                                            EntryView {
                                                old_path: Some(utf8_lossy(after.take(o))),
                                                ..en
                                            },
                                        ),
                                    )
                                },
                            },
                        }
                    } else if tag == 63 {
                        match untracked_entry(line) {
                            None => PorcelainOutcome::Panics,
                            Some(en) => porcelain_from(after, b, es.push(en)),
                        }
                    } else if tag == 33 {
                        porcelain_from(after, b, es)
                    } else {
                        PorcelainOutcome::Failed(
                            "unknown porcelain entry prefix: "@.push((tag as u32) as char),
                        )
                    }
                }
            },
        }
    }
}

/// What reading the whole output gives.
pub open spec fn porcelain(output: Seq<u8>) -> PorcelainOutcome {
    porcelain_from(output, initial_branch(), Seq::empty())
}

/// Applies a `# branch.*` header line to `branch`.
pub fn apply_branch_line(line: &[char], branch: &mut BranchInfo)
    ensures
        final(branch)@ == branch_after(line@, old(branch)@),
{
    let hash = chars_of("# ");
    let content = trim_chars(&trim_start_matches_chars(line, &hash));
    let head = chars_of("branch.head ");
    let upstream = chars_of("branch.upstream ");
    let ab = chars_of("branch.ab ");
    if let Some(rest) = strip_prefix_chars(&content, &head) {
        branch.branch = string_of(&rest);
    } else if let Some(rest) = strip_prefix_chars(&content, &upstream) {
        branch.upstream = Some(string_of(&rest));
    } else if let Some(rest) = strip_prefix_chars(&content, &ab) {
        if let Some((w1, r1)) = next_word_chars(&rest) {
            branch.ahead = count_after(&w1, '+');
            if let Some((w2, _)) = next_word_chars(&r1) {
                branch.behind = count_after(&w2, '-');
            }
        }
    }
}

/// A count of a `branch.ab` line.
fn count_after(word: &[char], strip: char) -> (r: u32)
    ensures
        r == ab_count(word@, strip),
{
    let p: Vec<char> = vec![strip];
    assert(p@ =~= seq![strip]);
    let t = trim_start_matches_chars(word, &p);
    match parse_u32(&t) {
        Some(v) => v,
        None => 0,
    }
}

/// The entry of a line with `field_count` space-separated fields.
pub fn parse_status_line(line: &[char], field_count: usize) -> (r: Option<StatusEntry>)
    requires
        field_count >= 3,
    ensures
        match r {
            Some(e) => status_line(line@, field_count as nat) == Some(e@),
            None => status_line(line@, field_count as nat) is None,
        },
{
    let parts = splitn_chars(line, ' ', field_count);
    if parts.len() != field_count {
        return None;
    }
    let ghost pv = vecs_view(parts@);
    assert(pv[1] == parts@[1]@);
    assert(pv[field_count - 1] == parts@[field_count - 1]@);
    Some(
        StatusEntry {
            status_code: string_of(&parts[1]),
            path: string_of(&parts[field_count - 1]),
            old_path: None,
        },
    )
}

fn push_entry(v: &mut Vec<StatusEntry>, e: StatusEntry)
    ensures
        entries_view(final(v)@) == entries_view(old(v)@).push(e@),
{
    v.push(e);
    assert(entries_view(v@) =~= entries_view(old(v)@).push(e@));
}

fn parse_failure(msg: &str) -> (e: GitError)
    ensures
        e matches GitError::Parse(m) && m@ == msg@,
{
    GitError::Parse(owned(msg))
}

/// Reads porcelain output; `None` where reading it panics.
fn scan_porcelain(output: &[u8]) -> (r: Option<Result<ParsedStatus, GitError>>)
    ensures
        match porcelain(output@) {
            PorcelainOutcome::Panics => r is None,
            PorcelainOutcome::Failed(m) => r matches Some(Err(GitError::Parse(s))) && s@ == m,
            PorcelainOutcome::Parsed(b, es) => r matches Some(Ok(p)) && p.branch@ == b
                && entries_view(p.entries@) == es,
        },
{
    let n = output.len();
    let mut idx: usize = 0;
    let mut branch = BranchInfo { branch: owned("HEAD"), upstream: None, ahead: 0, behind: 0 };
    let mut entries: Vec<StatusEntry> = Vec::new();
    assert(output@.skip(0) =~= output@);
    assert(entries_view(entries@) =~= Seq::<EntryView>::empty());
    while idx < n
        invariant
            n == output@.len(),
            idx <= n,
            porcelain(output@) == porcelain_from(
                output@.skip(idx as int),
                branch@,
                entries_view(entries@),
            ),
        decreases n - idx,
    {
        let ghost rest = output@.skip(idx as int);
        let ghost b0 = branch@;
        let ghost es0 = entries_view(entries@);
        proof {
            lemma_first_byte_index(rest, 0);
        }
        let k = match byte_position_from(output, idx, 0) {
            Some(k) => k,
            None => {
                return Some(Err(parse_failure("unterminated porcelain record")));
            },
        };
        if k == 0 {
            assert(rest.drop_first() =~= output@.skip(idx + 1));
            idx = idx + 1;
            continue;
        }
        let end = idx + k;
        let record = slice_bytes(output, idx, end);
        assert(record@ =~= rest.take(k as int));
        let line = lossy_chars(record.as_slice());
        let tag = output[idx];
        assert(tag == rest.take(k as int)[0]);
        idx = end + 1;
        assert(rest.skip(k + 1) =~= output@.skip(idx as int));
        if tag == 35u8 {
            apply_branch_line(&line, &mut branch);
        } else if tag == 49u8 || tag == 117u8 {
            if let Some(e) = parse_status_line(&line, 9) {
                push_entry(&mut entries, e);
            }
        } else if tag == 50u8 {
            let mut entry = match parse_status_line(&line, 10) {
                Some(e) => e,
                None => {
                    return Some(Err(parse_failure("invalid rename status line")));
                },
            };
            let ghost after = output@.skip(idx as int);
            proof {
                lemma_first_byte_index(after, 0);
            }
            let o = match byte_position_from(output, idx, 0) {
                Some(o) => o,
                None => {
                    return Some(Err(parse_failure("missing old path for rename")));
                },
            };
            let old_bytes = slice_bytes(output, idx, idx + o);
            assert(old_bytes@ =~= after.take(o as int));
            let old = lossy_chars(old_bytes.as_slice());
            entry.old_path = Some(string_of(&old));
            idx = idx + o + 1;
            assert(after.skip(o + 1) =~= output@.skip(idx as int));
            push_entry(&mut entries, entry);
        } else if tag == 63u8 {
            match skip_utf8_chars(&line, 2) {
                Some(p) => {
                    push_entry(
                        &mut entries,
                        StatusEntry { status_code: owned("??"), path: string_of(&p), old_path: None },
                    );
                },
                None => {
                    return None;
                },
            }
        } else if tag == 33u8 {
        } else {
            let mut msg = chars_of("unknown porcelain entry prefix: ");
            msg.push(tag as char);
            return Some(Err(GitError::Parse(string_of(&msg))));
        }
    }
    assert(output@.skip(idx as int) =~= Seq::<u8>::empty());
    Some(Ok(ParsedStatus { branch, entries }))
}

/// The branch and entries of `git status --porcelain=v2 -b -z` output, or
/// the parse error it meets first.
pub fn parse_porcelain_status(output: &[u8]) -> (r: Result<ParsedStatus, GitError>)
    requires
        !(porcelain(output@) is Panics),
    ensures
        match porcelain(output@) {
            PorcelainOutcome::Panics => false,
            PorcelainOutcome::Failed(m) => r matches Err(GitError::Parse(s)) && s@ == m,
            PorcelainOutcome::Parsed(b, es) => r matches Ok(p) && p.branch@ == b && entries_view(
                p.entries@,
            ) == es,
        },
{
    match scan_porcelain(output) {
        Some(r) => r,
        None => {
            proof {
                assert(false);
            }
            Err(parse_failure("unreachable"))
        },
    }
}

/// As `parse_porcelain_status`, with `None` for output on which reading
/// panics (an untracked record too short to hold a path).
pub fn try_parse_porcelain_status(output: &[u8]) -> (r: Option<Result<ParsedStatus, GitError>>)
    ensures
        match porcelain(output@) {
            PorcelainOutcome::Panics => r is None,
            PorcelainOutcome::Failed(m) => r matches Some(Err(GitError::Parse(s))) && s@ == m,
            PorcelainOutcome::Parsed(b, es) => r matches Some(Ok(p)) && p.branch@ == b
                && entries_view(p.entries@) == es,
        },
{
    scan_porcelain(output)
}

} // verus!
