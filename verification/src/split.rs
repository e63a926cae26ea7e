//! Splitting text into pieces with the semantics of `str::split`,
//! `str::splitn`, `str::lines`, `str::split_whitespace` and the prefix
//! helpers `strip_prefix` / `trim_start_matches`.

use vstd::prelude::*;

use crate::text::{find_from, has_prefix, is_ws, is_whitespace, occurs_at, position_of, slice_chars, starts_with};

verus! {

/// The characters of every vector of `v`, in order.
pub open spec fn vecs_view(v: Seq<Vec<char>>) -> Seq<Seq<char>> {
    Seq::new(v.len(), |i: int| v[i]@)
}

/// Appends `x` to the vector of character vectors `v`.
pub fn push_vec(v: &mut Vec<Vec<char>>, x: Vec<char>)
    ensures
        vecs_view(final(v)@) == vecs_view(old(v)@).push(x@),
{
    v.push(x);
    assert(vecs_view(v@) =~= vecs_view(old(v)@).push(x@));
}

// ---------------------------------------------------------------------------
// First occurrence
// ---------------------------------------------------------------------------

/// The index of the first `c` in `s`.
pub open spec fn first_index(s: Seq<char>, c: char) -> Option<int>
    decreases s.len(),
{
    if s.len() == 0 {
        None
    } else if s[0] == c {
        Some(0)
    } else {
        match first_index(s.drop_first(), c) {
            Some(i) => Some(i + 1),
            None => None,
        }
    }
}

/// What `first_index` gives: the least index holding `c`, if any.
pub proof fn lemma_first_index(s: Seq<char>, c: char)
    ensures
        match first_index(s, c) {
            Some(i) => 0 <= i < s.len() && s[i] == c && forall|j: int| 0 <= j < i ==> s[j] != c,
            None => forall|j: int| 0 <= j < s.len() ==> s[j] != c,
        },
    decreases s.len(),
{
    if s.len() > 0 && s[0] != c {
        lemma_first_index(s.drop_first(), c);
        match first_index(s.drop_first(), c) {
            Some(i) => {
                assert forall|j: int| 0 <= j < i + 1 implies s[j] != c by {
                    if j > 0 {
                        assert(s[j] == s.drop_first()[j - 1]);
                    }
                }
            },
            None => {
                assert forall|j: int| 0 <= j < s.len() implies s[j] != c by {
                    if j > 0 {
                        assert(s[j] == s.drop_first()[j - 1]);
                    }
                }
            },
        }
    }
}

/// The least index holding `c` is the value of `first_index`.
pub proof fn lemma_first_index_is(s: Seq<char>, c: char, i: int)
    requires
        0 <= i < s.len(),
        s[i] == c,
        forall|j: int| 0 <= j < i ==> s[j] != c,
    ensures
        first_index(s, c) == Some(i),
{
    lemma_first_index(s, c);
}

/// No index holds `c`, so `first_index` is `None`.
pub proof fn lemma_first_index_none(s: Seq<char>, c: char)
    requires
        forall|j: int| 0 <= j < s.len() ==> s[j] != c,
    ensures
        first_index(s, c) is None,
{
    lemma_first_index(s, c);
    if first_index(s, c) is Some {
        let i = first_index(s, c)->0;
        assert(s[i] == c);
    }
}

/// The first position of `c` in `s`.
pub fn first_index_of(s: &[char], c: char) -> (r: Option<usize>)
    ensures
        match r {
            Some(i) => first_index(s@, c) == Some(i as int),
            None => first_index(s@, c) is None,
        },
{
    let r = position_of(s, c);
    proof {
        match r {
            Some(i) => lemma_first_index_is(s@, c, i as int),
            None => lemma_first_index_none(s@, c),
        }
    }
    r
}

// ---------------------------------------------------------------------------
// `split` and `lines`
// ---------------------------------------------------------------------------

/// The pieces of `s` between occurrences of `c` (`str::split`).
pub open spec fn split_on(s: Seq<char>, c: char) -> Seq<Seq<char>>
    decreases s.len(),
{
    match first_index(s, c) {
        Some(p) => {
            proof {
                lemma_first_index(s, c);
            }
            seq![s.take(p)] + split_on(s.skip(p + 1), c)
        },
        None => seq![s],
    }
}

/// `split_on` yields at least one piece.
pub proof fn lemma_split_nonempty(s: Seq<char>, c: char)
    ensures
        split_on(s, c).len() >= 1,
        split_on(s, c)[0] == match first_index(s, c) {
            Some(p) => s.take(p),
            None => s,
        },
{
}

/// `p` without one trailing carriage return.
pub open spec fn strip_cr(p: Seq<char>) -> Seq<char> {
    if p.len() > 0 && p.last() == '\r' {
        p.drop_last()
    } else {
        p
    }
}

/// The lines of `s` (`str::lines`): split at `\n`, a `\r` right before the
/// `\n` removed, no empty line after a final `\n`.
pub open spec fn lines(s: Seq<char>) -> Seq<Seq<char>>
    decreases s.len(),
{
    if s.len() == 0 {
        Seq::empty()
    } else {
        match first_index(s, '\n') {
            Some(p) => {
                proof {
                    lemma_first_index(s, '\n');
                }
                seq![strip_cr(s.take(p))] + lines(s.skip(p + 1))
            },
            None => seq![s],
        }
    }
}

/// The pieces of `s` between occurrences of `c`.
pub fn split_chars(s: &[char], c: char) -> (r: Vec<Vec<char>>)
    ensures
        vecs_view(r@) == split_on(s@, c),
{
    let mut out: Vec<Vec<char>> = Vec::new();
    let mut rest: Vec<char> = slice_chars(s, 0, s.len());
    assert(rest@ =~= s@);
    loop
        invariant
            vecs_view(out@) + split_on(rest@, c) == split_on(s@, c),
        decreases rest@.len(),
    {
        match first_index_of(&rest, c) {
            Some(p) => {
                proof {
                    lemma_first_index(rest@, c);
                }
                let piece = slice_chars(&rest, 0, p);
                let next = slice_chars(&rest, p + 1, rest.len());
                assert(piece@ =~= rest@.take(p as int));
                assert(next@ =~= rest@.skip(p + 1));
                let ghost before = vecs_view(out@);
                push_vec(&mut out, piece);
                assert(before + split_on(rest@, c) =~= vecs_view(out@) + split_on(next@, c));
                rest = next;
            },
            None => {
                let ghost before = vecs_view(out@);
                let ghost rv = rest@;
                push_vec(&mut out, rest);
                assert(before + split_on(rv, c) =~= vecs_view(out@));
                return out;
            },
        }
    }
}

/// The lines of `s` (`str::lines`).
pub fn lines_of(s: &[char]) -> (r: Vec<Vec<char>>)
    ensures
        vecs_view(r@) == lines(s@),
{
    let mut out: Vec<Vec<char>> = Vec::new();
    let mut rest: Vec<char> = slice_chars(s, 0, s.len());
    assert(rest@ =~= s@);
    loop
        invariant
            vecs_view(out@) + lines(rest@) == lines(s@),
        decreases rest@.len(),
    {
        if rest.len() == 0 {
            assert(vecs_view(out@) + lines(rest@) =~= vecs_view(out@));
            return out;
        }
        match first_index_of(&rest, '\n') {
            Some(p) => {
                proof {
                    lemma_first_index(rest@, '\n');
                }
                let mut end = p;
                if end > 0 && rest[end - 1] == '\r' {
                    end = end - 1;
                }
                let piece = slice_chars(&rest, 0, end);
                assert(piece@ =~= strip_cr(rest@.take(p as int)));
                let next = slice_chars(&rest, p + 1, rest.len());
                assert(next@ =~= rest@.skip(p + 1));
                let ghost before = vecs_view(out@);
                push_vec(&mut out, piece);
                assert(before + lines(rest@) =~= vecs_view(out@) + lines(next@));
                rest = next;
            },
            None => {
                let ghost before = vecs_view(out@);
                let ghost rv = rest@;
                push_vec(&mut out, rest);
                assert(before + lines(rv) =~= vecs_view(out@));
                return out;
            },
        }
    }
}

/// The lines of a string (`str::lines`).
pub fn lines_of_str(s: &str) -> (r: Vec<Vec<char>>)
    ensures
        vecs_view(r@) == lines(s@),
{
    let v = crate::text::chars_of(s);
    lines_of(&v)
}

// ---------------------------------------------------------------------------
// `splitn`
// ---------------------------------------------------------------------------

/// At most `n` pieces of `s` split at `c`, the last holding the remainder
/// (`str::splitn`).
pub open spec fn splitn_on(s: Seq<char>, c: char, n: nat) -> Seq<Seq<char>>
    decreases n,
{
    if n == 0 {
        Seq::empty()
    } else if n == 1 {
        seq![s]
    } else {
        match first_index(s, c) {
            Some(p) => seq![s.take(p)] + splitn_on(s.skip(p + 1), c, (n - 1) as nat),
            None => seq![s],
        }
    }
}

/// At most `n` pieces of `s` split at `c`, the last holding the remainder.
pub fn splitn_chars(s: &[char], c: char, n: usize) -> (r: Vec<Vec<char>>)
    ensures
        vecs_view(r@) == splitn_on(s@, c, n as nat),
{
    let mut out: Vec<Vec<char>> = Vec::new();
    if n == 0 {
        return out;
    }
    let mut rest: Vec<char> = slice_chars(s, 0, s.len());
    assert(rest@ =~= s@);
    let mut k: usize = n;
    loop
        invariant
            1 <= k <= n,
            vecs_view(out@) + splitn_on(rest@, c, k as nat) == splitn_on(s@, c, n as nat),
        decreases k,
    {
        if k == 1 {
            let ghost before = vecs_view(out@);
            let ghost rv = rest@;
            push_vec(&mut out, rest);
            assert(before + splitn_on(rv, c, 1) =~= vecs_view(out@));
            return out;
        }
        match first_index_of(&rest, c) {
            Some(p) => {
                proof {
                    lemma_first_index(rest@, c);
                }
                let piece = slice_chars(&rest, 0, p);
                let n = rest.len();
                assert(p < n);
                let next = slice_chars(&rest, p + 1, n);
                assert(piece@ =~= rest@.take(p as int));
                assert(next@ =~= rest@.skip(p + 1));
                let ghost before = vecs_view(out@);
                push_vec(&mut out, piece);
                assert(before + splitn_on(rest@, c, k as nat) =~= vecs_view(out@) + splitn_on(
                    next@,
                    c,
                    (k - 1) as nat,
                ));
                rest = next;
                k = k - 1;
            },
            None => {
                let ghost before = vecs_view(out@);
                let ghost rv = rest@;
                push_vec(&mut out, rest);
                assert(before + splitn_on(rv, c, k as nat) =~= vecs_view(out@));
                return out;
            },
        }
    }
}

// ---------------------------------------------------------------------------
// Splitting at a multi-character pattern
// ---------------------------------------------------------------------------

/// The first position where the pattern `p` occurs in `s`.
#[verifier::opaque]
pub open spec fn first_occurrence(s: Seq<char>, p: Seq<char>) -> Option<int> {
    if exists|i: int| occurs_at(s, p, i) {
        Some(
            choose|i: int| occurs_at(s, p, i) && forall|j: int| 0 <= j < i ==> !occurs_at(s, p, j),
        )
    } else {
        None
    }
}

proof fn lemma_first_occurrence_is(s: Seq<char>, p: Seq<char>, i: int)
    requires
        occurs_at(s, p, i),
        forall|j: int| 0 <= j < i ==> !occurs_at(s, p, j),
    ensures
        first_occurrence(s, p) == Some(i),
{
    reveal(first_occurrence);
    let k = choose|k: int| occurs_at(s, p, k) && forall|j: int| 0 <= j < k ==> !occurs_at(s, p, j);
    assert(occurs_at(s, p, k));
    if k < i {
        assert(!occurs_at(s, p, k));
    }
    if i < k {
        assert(!occurs_at(s, p, i));
    }
}

/// The pieces of `s` between non-overlapping occurrences of the non-empty
/// pattern `p` (`str::split` with a string pattern).
pub open spec fn split_on_pattern(s: Seq<char>, p: Seq<char>) -> Seq<Seq<char>>
    decreases s.len(),
{
    if p.len() == 0 {
        seq![s]
    } else {
        match first_occurrence(s, p) {
            Some(i) => {
                if 0 <= i && i + p.len() <= s.len() {
                    seq![s.take(i)] + split_on_pattern(s.skip(i + p.len()), p)
                } else {
                    seq![s]
                }
            },
            None => seq![s],
        }
    }
}

proof fn lemma_split_pattern_step(s: Seq<char>, p: Seq<char>, i: int)
    requires
        p.len() > 0,
        occurs_at(s, p, i),
        forall|j: int| 0 <= j < i ==> !occurs_at(s, p, j),
    ensures
        split_on_pattern(s, p) == seq![s.take(i)] + split_on_pattern(s.skip(i + p.len()), p),
{
    lemma_first_occurrence_is(s, p, i);
}

proof fn lemma_split_pattern_none(s: Seq<char>, p: Seq<char>)
    requires
        p.len() > 0,
        forall|j: int| 0 <= j ==> !occurs_at(s, p, j),
    ensures
        split_on_pattern(s, p) == seq![s],
{
    reveal(first_occurrence);
    assert(!(exists|i: int| occurs_at(s, p, i)));
}

/// The pieces of `s` between non-overlapping occurrences of `p`.
pub fn split_pattern(s: &[char], p: &[char]) -> (r: Vec<Vec<char>>)
    requires
        p@.len() > 0,
    ensures
        vecs_view(r@) == split_on_pattern(s@, p@),
{
    let mut out: Vec<Vec<char>> = Vec::new();
    let mut rest: Vec<char> = slice_chars(s, 0, s.len());
    assert(rest@ =~= s@);
    loop
        invariant
            p@.len() > 0,
            vecs_view(out@) + split_on_pattern(rest@, p@) == split_on_pattern(s@, p@),
        decreases rest@.len(),
    {
        match find_from(&rest, p, 0) {
            Some(i) => {
                proof {
                    lemma_split_pattern_step(rest@, p@, i as int);
                }
                let piece = slice_chars(&rest, 0, i);
                let n = rest.len();
                assert(i + p@.len() <= n);
                let next = slice_chars(&rest, i + p.len(), n);
                assert(piece@ =~= rest@.take(i as int));
                assert(next@ =~= rest@.skip(i + p@.len()));
                let ghost before = vecs_view(out@);
                push_vec(&mut out, piece);
                assert(before + split_on_pattern(rest@, p@) =~= vecs_view(out@) + split_on_pattern(
                    next@,
                    p@,
                ));
                rest = next;
            },
            None => {
                proof {
                    lemma_split_pattern_none(rest@, p@);
                }
                let ghost before = vecs_view(out@);
                let ghost rv = rest@;
                push_vec(&mut out, rest);
                assert(before + split_on_pattern(rv, p@) =~= vecs_view(out@));
                return out;
            },
        }
    }
}

// ---------------------------------------------------------------------------
// Prefixes
// ---------------------------------------------------------------------------

/// `s` without the prefix `p`, when it has it (`str::strip_prefix`).
pub open spec fn strip_prefix(s: Seq<char>, p: Seq<char>) -> Option<Seq<char>> {
    if has_prefix(s, p) {
        Some(s.skip(p.len() as int))
    } else {
        None
    }
}

/// `s` without the prefix `p`, when it has it.
pub fn strip_prefix_chars(s: &[char], p: &[char]) -> (r: Option<Vec<char>>)
    ensures
        match r {
            Some(v) => strip_prefix(s@, p@) == Some(v@),
            None => strip_prefix(s@, p@) is None,
        },
{
    if starts_with(s, p) {
        let v = slice_chars(s, p.len(), s.len());
        assert(v@ =~= s@.skip(p@.len() as int));
        Some(v)
    } else {
        None
    }
}

/// `s` without every leading repetition of the non-empty `p`
/// (`str::trim_start_matches`).
pub open spec fn trim_start_matches(s: Seq<char>, p: Seq<char>) -> Seq<char>
    decreases s.len(),
{
    if p.len() > 0 && has_prefix(s, p) {
        trim_start_matches(s.skip(p.len() as int), p)
    } else {
        s
    }
}

/// `s` without every leading repetition of the non-empty `p`.
pub fn trim_start_matches_chars(s: &[char], p: &[char]) -> (r: Vec<char>)
    ensures
        r@ == trim_start_matches(s@, p@),
{
    let mut rest: Vec<char> = slice_chars(s, 0, s.len());
    assert(rest@ =~= s@);
    if p.len() == 0 {
        return rest;
    }
    while starts_with(&rest, p)
        invariant
            p@.len() > 0,
            trim_start_matches(rest@, p@) == trim_start_matches(s@, p@),
        decreases rest@.len(),
    {
        let next = slice_chars(&rest, p.len(), rest.len());
        assert(next@ =~= rest@.skip(p@.len() as int));
        rest = next;
    }
    rest
}

/// `s` without every trailing `c` (`str::trim_end_matches` with a char).
pub open spec fn trim_end_char(s: Seq<char>, c: char) -> Seq<char>
    decreases s.len(),
{
    if s.len() > 0 && s.last() == c {
        trim_end_char(s.drop_last(), c)
    } else {
        s
    }
}

/// `s` without every trailing `c`.
pub fn trim_end_char_chars(s: &[char], c: char) -> (r: Vec<char>)
    ensures
        r@ == trim_end_char(s@, c),
{
    let mut j: usize = s.len();
    assert(s@.take(j as int) =~= s@);
    while j > 0 && s[j - 1] == c
        invariant
            j <= s@.len(),
            trim_end_char(s@.take(j as int), c) == trim_end_char(s@, c),
        decreases j,
    {
        assert(s@.take(j as int).drop_last() =~= s@.take(j - 1));
        j = j - 1;
    }
    let r = slice_chars(s, 0, j);
    assert(r@ =~= s@.take(j as int));
    r
}

// ---------------------------------------------------------------------------
// Whitespace-separated words
// ---------------------------------------------------------------------------

/// The number of leading non-whitespace characters of `s`.
pub open spec fn word_len(s: Seq<char>) -> nat
    decreases s.len(),
{
    if s.len() > 0 && !is_ws(s[0]) {
        1 + word_len(s.drop_first())
    } else {
        0
    }
}

/// The first whitespace-separated word of `s`, and what follows it
/// (one step of `str::split_whitespace`).
pub open spec fn next_word(s: Seq<char>) -> Option<(Seq<char>, Seq<char>)> {
    let t = crate::text::trim_start(s);
    if t.len() == 0 {
        None
    } else {
        Some((t.take(word_len(t) as int), t.skip(word_len(t) as int)))
    }
}

proof fn lemma_word_len(s: Seq<char>)
    ensures
        word_len(s) <= s.len(),
        forall|j: int| 0 <= j < word_len(s) ==> !is_ws(#[trigger] s[j]),
        word_len(s) < s.len() ==> is_ws(s[word_len(s) as int]),
    decreases s.len(),
{
    if s.len() > 0 && !is_ws(s[0]) {
        lemma_word_len(s.drop_first());
        assert forall|j: int| 0 <= j < word_len(s) implies !is_ws(#[trigger] s[j]) by {
            if j > 0 {
                assert(s[j] == s.drop_first()[j - 1]);
            }
        }
    }
}

proof fn lemma_word_len_is(s: Seq<char>, k: int)
    requires
        0 <= k <= s.len(),
        forall|j: int| 0 <= j < k ==> !is_ws(#[trigger] s[j]),
        k < s.len() ==> is_ws(s[k]),
    ensures
        word_len(s) == k,
    decreases s.len(),
{
    if k > 0 {
        assert(!is_ws(s[0]));
        lemma_word_len_is(s.drop_first(), k - 1);
    }
}

/// The first whitespace-separated word of `s` and what follows it.
pub fn next_word_chars(s: &[char]) -> (r: Option<(Vec<char>, Vec<char>)>)
    ensures
        match r {
            Some((w, rest)) => next_word(s@) == Some((w@, rest@)),
            None => next_word(s@) is None,
        },
{
    let start = crate::text::trim_start_index(s);
    let t = slice_chars(s, start, s.len());
    if t.len() == 0 {
        return None;
    }
    let mut k: usize = 0;
    while k < t.len() && !is_whitespace(t[k])
        invariant
            k <= t@.len(),
            forall|j: int| 0 <= j < k ==> !is_ws(#[trigger] t@[j]),
        decreases t@.len() - k,
    {
        k = k + 1;
    }
    proof {
        lemma_word_len_is(t@, k as int);
    }
    let w = slice_chars(&t, 0, k);
    let rest = slice_chars(&t, k, t.len());
    assert(w@ =~= t@.take(k as int));
    assert(rest@ =~= t@.skip(k as int));
    Some((w, rest))
}

} // verus!
