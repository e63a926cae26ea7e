//! What the process manager decides on its own: which worker a run
//! belongs to, and how a worker's standard output is cut into the lines
//! that may carry its turn.

use vstd::prelude::*;

use crate::bytes::{
    byte_position_from, first_byte_index, lemma_first_byte_index, lemma_first_byte_index_is, lossy_chars,
    slice_bytes, utf8_lossy,
};
use crate::split::{strip_prefix, strip_prefix_chars, trim_start_matches, trim_start_matches_chars};
use crate::text::{chars_of, parse_i64, parse_signed64, push_string, string_of, strings_view, trim, trim_chars};

verus! {

/// The capacities of the process manager's channels.
pub struct ProcessManagerConfig {
    pub event_buffer: usize,
    pub kill_buffer: usize,
}

impl Default for ProcessManagerConfig {
    /// 128 events and 4 kill signals.
    fn default() -> (r: Self)
        ensures
            r.event_buffer == 128,
            r.kill_buffer == 4,
    {
        ProcessManagerConfig { event_buffer: 128, kill_buffer: 4 }
    }
}

/// The id in the first tag `worker:<id>` whose id is an `i64`.
pub open spec fn tag_worker_id(tags: Seq<Seq<char>>) -> Option<int>
    decreases tags.len(),
{
    if tags.len() == 0 {
        None
    } else {
        match strip_prefix(tags[0], "worker:"@) {
            Some(rest) => match parse_signed64(rest) {
                Some(id) => Some(id),
                None => tag_worker_id(tags.drop_first()),
            },
            None => tag_worker_id(tags.drop_first()),
        }
    }
}

/// The worker a run belongs to: from its tags, else from a persona
/// `worker:ws<id>` (the `ws` prefixes are optional).
pub open spec fn run_worker_id(tags: Seq<Seq<char>>, persona: Seq<char>) -> Option<int> {
    match tag_worker_id(tags) {
        Some(id) => Some(id),
        None => match strip_prefix(persona, "worker:"@) {
            Some(rest) => parse_signed64(trim_start_matches(rest, "ws"@)),
            None => None,
        },
    }
}

/// The worker the run with these tags and persona belongs to, if any.
pub fn parse_worker_id(tags: &Vec<String>, persona: &str) -> (r: Option<i64>)
    ensures
        match r {
            Some(id) => run_worker_id(strings_view(tags@), persona@) == Some(id as int),
            None => run_worker_id(strings_view(tags@), persona@) is None,
        },
{
    let ghost all = strings_view(tags@);
    let prefix = chars_of("worker:");
    let mut i: usize = 0;
    assert(all.skip(0) =~= all);
    while i < tags.len()
        invariant
            i <= tags@.len(),
            all == strings_view(tags@),
            prefix@ == "worker:"@,
            tag_worker_id(all) == tag_worker_id(all.skip(i as int)),
        decreases tags@.len() - i,
    {
        assert(all.skip(i as int)[0] == tags@[i as int]@);
        assert(all.skip(i as int).drop_first() =~= all.skip(i + 1));
        let t = chars_of(tags[i].as_str());
        if let Some(rest) = strip_prefix_chars(&t, &prefix) {
            if let Some(id) = parse_i64(&rest) {
                return Some(id);
            }
        }
        i = i + 1;
    }
    assert(all.skip(i as int) =~= Seq::<Seq<char>>::empty());
    let p = chars_of(persona);
    match strip_prefix_chars(&p, &prefix) {
        Some(rest) => {
            let ws = chars_of("ws");
            let digits = trim_start_matches_chars(&rest, &ws);
            parse_i64(&digits)
        },
        None => None,
    }
}

// ---------------------------------------------------------------------------
// Cutting standard output into lines
// ---------------------------------------------------------------------------

/// The newline-terminated lines at the start of `buf`, without their
/// newlines.
pub open spec fn complete_lines(buf: Seq<u8>) -> Seq<Seq<u8>>
    decreases buf.len(),
{
    match first_byte_index(buf, 10) {
        Some(p) => {
            proof {
                lemma_first_byte_index(buf, 10);
            }
            seq![buf.take(p)] + complete_lines(buf.skip(p + 1))
        },
        None => Seq::empty(),
    }
}

/// What follows the last newline of `buf` (all of it when it has none).
pub open spec fn leftover(buf: Seq<u8>) -> Seq<u8>
    decreases buf.len(),
{
    match first_byte_index(buf, 10) {
        Some(p) => {
            proof {
                lemma_first_byte_index(buf, 10);
            }
            leftover(buf.skip(p + 1))
        },
        None => buf,
    }
}

/// Cutting `x + c` into lines gives the lines of `x`, then those of what
/// `x` left over followed by `c`; what is left over at the end is the same
/// either way.
pub proof fn lemma_lines_append(x: Seq<u8>, c: Seq<u8>)
    ensures
        complete_lines(x + c) == complete_lines(x) + complete_lines(leftover(x) + c),
        leftover(x + c) == leftover(leftover(x) + c),
    decreases x.len(),
{
    lemma_first_byte_index(x, 10);
    match first_byte_index(x, 10) {
        Some(p) => {
            let xc = x + c;
            assert forall|j: int| 0 <= j < p implies xc[j] != 10u8 by {
                assert(xc[j] == x[j]);
            }
            assert(xc[p] == x[p]);
            lemma_first_byte_index_is(xc, 10, p);
            assert(xc.take(p) =~= x.take(p));
            assert(xc.skip(p + 1) =~= x.skip(p + 1) + c);
            lemma_lines_append(x.skip(p + 1), c);
            assert(complete_lines(xc) =~= seq![x.take(p)] + complete_lines(x.skip(p + 1) + c));
            assert(complete_lines(x) =~= seq![x.take(p)] + complete_lines(x.skip(p + 1)));
        },
        None => {
            assert(complete_lines(x) =~= Seq::<Seq<u8>>::empty());
            assert(leftover(x) == x);
            assert(complete_lines(x) + complete_lines(leftover(x) + c) =~= complete_lines(x + c));
        },
    }
}

/// A line as text: decoded lossily and trimmed.
pub open spec fn line_text(line: Seq<u8>) -> Seq<char> {
    trim(utf8_lossy(line))
}

/// The texts of the lines that are not blank, in order.
pub open spec fn nonblank_texts(ls: Seq<Seq<u8>>) -> Seq<Seq<char>>
    decreases ls.len(),
{
    if ls.len() == 0 {
        Seq::empty()
    } else {
        (if line_text(ls[0]).len() > 0 {
            seq![line_text(ls[0])]
        } else {
            Seq::empty()
        }) + nonblank_texts(ls.drop_first())
    }
}

/// Collects a worker's standard output: the text of each complete
/// non-blank line, and the bytes after the last newline.
pub struct StructuredOutputCollector {
    buffer: Vec<u8>,
    lines: Vec<String>,
}

impl StructuredOutputCollector {
    /// The bytes after the last newline seen.
    pub closed spec fn buffered(&self) -> Seq<u8> {
        self.buffer@
    }

    /// The texts of the complete non-blank lines not yet handed over.
    pub closed spec fn texts(&self) -> Seq<Seq<char>> {
        strings_view(self.lines@)
    }

    /// A collector that has seen nothing.
    pub fn new() -> (r: Self)
        ensures
            r.buffered() == Seq::<u8>::empty(),
            r.texts() == Seq::<Seq<char>>::empty(),
    {
        let r = StructuredOutputCollector { buffer: Vec::new(), lines: Vec::new() };
        assert(strings_view(r.lines@) =~= Seq::<Seq<char>>::empty());
        r
    }

    /// Takes in a chunk of output: every line it completes is cut off, and
    /// its text kept when not blank.
    pub fn ingest(&mut self, bytes: &[u8])
        ensures
            final(self).texts() == old(self).texts() + nonblank_texts(
                complete_lines(old(self).buffered() + bytes@),
            ),
            final(self).buffered() == leftover(old(self).buffered() + bytes@),
    {
        let ghost all = self.buffer@ + bytes@;
        let ghost t0 = strings_view(self.lines@);
        crate::bytes::extend_bytes(&mut self.buffer, bytes);
        assert(t0 + nonblank_texts(complete_lines(self.buffer@)) =~= t0 + nonblank_texts(
            complete_lines(all),
        ));
        loop
            invariant
                strings_view(self.lines@) + nonblank_texts(complete_lines(self.buffer@)) == t0
                    + nonblank_texts(complete_lines(all)),
                leftover(self.buffer@) == leftover(all),
            ensures
                strings_view(self.lines@) == t0 + nonblank_texts(complete_lines(all)),
                self.buffer@ == leftover(all),
            decreases self.buffer@.len(),
        {
            let ghost b = self.buffer@;
            proof {
                lemma_first_byte_index(b, 10);
            }
            let pos = match byte_position_from(self.buffer.as_slice(), 0, 10) {
                Some(p) => p,
                None => {
                    assert(b.skip(0) =~= b);
                    assert(complete_lines(b) =~= Seq::<Seq<u8>>::empty());
                    assert(strings_view(self.lines@) + nonblank_texts(Seq::<Seq<u8>>::empty())
                        =~= strings_view(self.lines@));
                    break;
                },
            };
            assert(b.skip(0) =~= b);
            let n = self.buffer.len();
            let line = slice_bytes(self.buffer.as_slice(), 0, pos);
            let rest = slice_bytes(self.buffer.as_slice(), pos + 1, n);
            assert(line@ =~= b.take(pos as int));
            assert(rest@ =~= b.skip(pos + 1));
            let text = trim_chars(&lossy_chars(line.as_slice()));
            let ghost before = strings_view(self.lines@);
            let ghost ls = complete_lines(b);
            assert(ls =~= seq![b.take(pos as int)] + complete_lines(rest@));
            assert(ls[0] == line@);
            assert(ls.drop_first() =~= complete_lines(rest@));
            if text.len() > 0 {
                push_string(&mut self.lines, string_of(&text));
                assert(before + nonblank_texts(ls) =~= strings_view(self.lines@) + nonblank_texts(
                    complete_lines(rest@),
                ));
            } else {
                assert(before + nonblank_texts(ls) =~= strings_view(self.lines@) + nonblank_texts(
                    complete_lines(rest@),
                ));
            }
            self.buffer = rest;
        }
    }

    /// Hands over the texts of the lines seen, followed by the text of the
    /// bytes after the last newline when they are not blank, and forgets
    /// everything. Each line may carry an agent message holding a turn; the
    /// turn of the run is the last one found (`last_turn`).
    pub fn take_turn(&mut self) -> (r: Vec<String>)
        ensures
            strings_view(r@) == old(self).texts() + (if old(self).buffered().len() > 0 && line_text(
                old(self).buffered(),
            ).len() > 0 {
                seq![line_text(old(self).buffered())]
            } else {
                Seq::<Seq<char>>::empty()
            }),
            final(self).buffered() == Seq::<u8>::empty(),
            final(self).texts() == Seq::<Seq<char>>::empty(),
    {
        let mut out: Vec<String> = Vec::new();
        std::mem::swap(&mut out, &mut self.lines);
        let ghost t0 = strings_view(out@);
        if self.buffer.len() > 0 {
            let text = trim_chars(&lossy_chars(self.buffer.as_slice()));
            if text.len() > 0 {
                push_string(&mut out, string_of(&text));
            } else {
                assert(strings_view(out@) =~= t0 + Seq::<Seq<char>>::empty());
            }
            self.buffer = Vec::new();
        } else {
            assert(strings_view(out@) =~= t0 + Seq::<Seq<char>>::empty());
        }
        assert(strings_view(self.lines@) =~= Seq::<Seq<char>>::empty());
        out
    }
}

// ---------------------------------------------------------------------------
// The end of a child process
// ---------------------------------------------------------------------------

/// How a child process ended: killed on request (with the reason of the
/// last kill signal), exited on its own (with its exit code, `None` when a
/// signal ended it), or waiting for it failed (with the error's message).
#[derive(Debug, Clone)]
pub enum ChildEnd<K> {
    Killed(K),
    Exited(Option<i32>),
    WaitFailed(String),
}

/// The lifecycle event that closes a run.
#[derive(Clone, Copy, PartialEq, Eq, Structural, Debug)]
pub enum RunLifecycle {
    Killed,
    Finished,
    Failed,
}

/// How a child ended, from the reason of the last kill signal received
/// while it ran (if any) and what waiting for it gave: its exit code or the
/// error's message. A failed wait is reported as such even after a kill;
/// a child that exits after a kill signal counts as killed.
pub fn child_end<K>(kill_reason: Option<K>, wait: Result<Option<i32>, String>) -> (r: ChildEnd<K>)
    ensures
        match wait {
            Err(m) => r == ChildEnd::<K>::WaitFailed(m),
            Ok(code) => match kill_reason {
                Some(k) => r == ChildEnd::<K>::Killed(k),
                None => r == ChildEnd::<K>::Exited(code),
            },
        },
{
    match wait {
        Err(m) => ChildEnd::WaitFailed(m),
        Ok(code) => match kill_reason {
            Some(k) => ChildEnd::Killed(k),
            None => ChildEnd::Exited(code),
        },
    }
}

impl<K> ChildEnd<K> {
    /// The lifecycle event sent when the child ended this way.
    pub fn lifecycle(&self) -> (r: RunLifecycle)
        ensures
            match self {
                ChildEnd::Killed(_) => r == RunLifecycle::Killed,
                ChildEnd::Exited(_) => r == RunLifecycle::Finished,
                ChildEnd::WaitFailed(_) => r == RunLifecycle::Failed,
            },
    {
        match self {
            ChildEnd::Killed(_) => RunLifecycle::Killed,
            ChildEnd::Exited(_) => RunLifecycle::Finished,
            ChildEnd::WaitFailed(_) => RunLifecycle::Failed,
        }
    }
}

/// The last present value of `s`, if any.
pub open spec fn last_some<T>(s: Seq<Option<T>>) -> Option<T>
    decreases s.len(),
{
    if s.len() == 0 {
        None
    } else {
        match s.last() {
            Some(t) => Some(t),
            None => last_some(s.drop_last()),
        }
    }
}

/// The turn of a run: of the turns read from its output lines, in order
/// (`None` for a line that carries none), the last one.
pub fn last_turn<T>(candidates: Vec<Option<T>>) -> (r: Option<T>)
    ensures
        r == last_some(candidates@),
{
    let mut v = candidates;
    loop
        invariant
            last_some(v@) == last_some(candidates@),
        decreases v@.len(),
    {
        match v.pop() {
            None => {
                return None;
            },
            Some(Some(t)) => {
                return Some(t);
            },
            Some(None) => {},
        }
    }
}

} // verus!
