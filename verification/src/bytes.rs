//! Byte buffers: searching, slicing, and decoding UTF-8 into characters.

use vstd::prelude::*;
use vstd::utf8::{decode_utf8, valid_utf8};

verus! {

/// What `String::from_utf8_lossy` decodes `bytes` to.
pub uninterp spec fn utf8_lossy(bytes: Seq<u8>) -> Seq<char>;

/// Decodes `bytes` as UTF-8, replacing each invalid sequence with U+FFFD
/// (`String::from_utf8_lossy`). Stated: the result is the named lossy
/// decoding of `bytes`, and for valid UTF-8 it is the ordinary decoding (the
/// documentation says the input is returned unchanged then). How invalid
/// sequences are replaced is left unsaid.
#[verifier::external_body]
pub fn lossy_chars(bytes: &[u8]) -> (v: Vec<char>)
    ensures
        v@ == utf8_lossy(bytes@),
        valid_utf8(bytes@) ==> v@ == decode_utf8(bytes@),
{
    String::from_utf8_lossy(bytes).chars().collect()
}

/// Decodes `bytes` as UTF-8 when they are valid (`String::from_utf8`).
#[verifier::external_body]
pub fn utf8_chars(bytes: &[u8]) -> (r: Option<Vec<char>>)
    ensures
        match r {
            Some(v) => valid_utf8(bytes@) && v@ == decode_utf8(bytes@),
            None => !valid_utf8(bytes@),
        },
{
    match std::str::from_utf8(bytes) {
        Ok(s) => Some(s.chars().collect()),
        Err(_) => None,
    }
}

/// The index of the first `b` in `s`.
pub open spec fn first_byte_index(s: Seq<u8>, b: u8) -> Option<int>
    decreases s.len(),
{
    if s.len() == 0 {
        None
    } else if s[0] == b {
        Some(0)
    } else {
        match first_byte_index(s.drop_first(), b) {
            Some(i) => Some(i + 1),
            None => None,
        }
    }
}

/// What `first_byte_index` gives: the least index holding `b`, if any.
pub proof fn lemma_first_byte_index(s: Seq<u8>, b: u8)
    ensures
        match first_byte_index(s, b) {
            Some(i) => 0 <= i < s.len() && s[i] == b && forall|j: int| 0 <= j < i ==> s[j] != b,
            None => forall|j: int| 0 <= j < s.len() ==> s[j] != b,
        },
    decreases s.len(),
{
    if s.len() > 0 && s[0] != b {
        lemma_first_byte_index(s.drop_first(), b);
        match first_byte_index(s.drop_first(), b) {
            Some(i) => {
                assert forall|j: int| 0 <= j < i + 1 implies s[j] != b by {
                    if j > 0 {
                        assert(s[j] == s.drop_first()[j - 1]);
                    }
                }
            },
            None => {
                assert forall|j: int| 0 <= j < s.len() implies s[j] != b by {
                    if j > 0 {
                        assert(s[j] == s.drop_first()[j - 1]);
                    }
                }
            },
        }
    }
}

pub(crate) proof fn lemma_first_byte_index_is(s: Seq<u8>, b: u8, i: int)
    requires
        0 <= i < s.len(),
        s[i] == b,
        forall|j: int| 0 <= j < i ==> s[j] != b,
    ensures
        first_byte_index(s, b) == Some(i),
{
    lemma_first_byte_index(s, b);
}

pub(crate) proof fn lemma_first_byte_index_none(s: Seq<u8>, b: u8)
    requires
        forall|j: int| 0 <= j < s.len() ==> s[j] != b,
    ensures
        first_byte_index(s, b) is None,
{
    lemma_first_byte_index(s, b);
    if first_byte_index(s, b) is Some {
        let i = first_byte_index(s, b)->0;
        assert(s[i] == b);
    }
}

/// The first position at or after `from` holding `b`, as an offset from
/// `from`.
pub fn byte_position_from(s: &[u8], from: usize, b: u8) -> (r: Option<usize>)
    requires
        from <= s@.len(),
    ensures
        match r {
            Some(k) => first_byte_index(s@.skip(from as int), b) == Some(k as int),
            None => first_byte_index(s@.skip(from as int), b) is None,
        },
{
    let n = s.len();
    let mut i: usize = from;
    while i < n
        invariant
            n == s@.len(),
            from <= i <= n,
            forall|j: int| from <= j < i ==> s@[j] != b,
        decreases n - i,
    {
        if s[i] == b {
            proof {
                let t = s@.skip(from as int);
                assert forall|j: int| 0 <= j < i - from implies t[j] != b by {
                    assert(t[j] == s@[from + j]);
                }
                lemma_first_byte_index_is(t, b, i - from);
            }
            return Some(i - from);
        }
        i = i + 1;
    }
    proof {
        let t = s@.skip(from as int);
        assert forall|j: int| 0 <= j < t.len() implies t[j] != b by {
            assert(t[j] == s@[from + j]);
        }
        lemma_first_byte_index_none(t, b);
    }
    None
}

/// The bytes of `v` from `start` (inclusive) to `end` (exclusive).
pub fn slice_bytes(v: &[u8], start: usize, end: usize) -> (r: Vec<u8>)
    requires
        start <= end <= v@.len(),
    ensures
        r@ == v@.subrange(start as int, end as int),
{
    let mut r: Vec<u8> = Vec::new();
    let mut i: usize = start;
    while i < end
        invariant
            start <= i <= end,
            end <= v@.len(),
            r@ == v@.subrange(start as int, i as int),
        decreases end - i,
    {
        r.push(v[i]);
        assert(v@.subrange(start as int, i + 1) =~= v@.subrange(start as int, i as int).push(
            v@[i as int],
        ));
        i = i + 1;
    }
    r
}

/// Appends all bytes of `v` to `out`.
pub fn extend_bytes(out: &mut Vec<u8>, v: &[u8])
    ensures
        final(out)@ == old(out)@ + v@,
{
    let ghost start = out@;
    let mut i: usize = 0;
    while i < v.len()
        invariant
            i <= v@.len(),
            out@ == start + v@.subrange(0, i as int),
        decreases v@.len() - i,
    {
        out.push(v[i]);
        assert(v@.subrange(0, i + 1) =~= v@.subrange(0, i as int).push(v@[i as int]));
        i = i + 1;
    }
    assert(v@.subrange(0, v@.len() as int) =~= v@);
}

// ---------------------------------------------------------------------------
// Byte offsets into decoded text
// ---------------------------------------------------------------------------

/// The number of bytes UTF-8 uses for `c`.
pub open spec fn utf8_width(c: char) -> int {
    let u = c as u32;
    if u < 0x80 {
        1
    } else if u < 0x800 {
        2
    } else if u < 0x10000 {
        3
    } else {
        4
    }
}

/// The characters of `s` after its first `k` UTF-8 bytes, or `None` when
/// `k` is past the end or inside a character (`&s[k..]` panics then).
pub open spec fn skip_utf8_bytes(s: Seq<char>, k: int) -> Option<Seq<char>>
    decreases s.len(),
{
    if k == 0 {
        Some(s)
    } else if k < 0 || s.len() == 0 || utf8_width(s[0]) > k {
        None
    } else {
        skip_utf8_bytes(s.drop_first(), k - utf8_width(s[0]))
    }
}

/// The number of bytes UTF-8 uses for `c`.
pub fn utf8_width_of(c: char) -> (w: usize)
    ensures
        w == utf8_width(c),
{
    let u = c as u32;
    if u < 0x80 {
        1
    } else if u < 0x800 {
        2
    } else if u < 0x10000 {
        3
    } else {
        4
    }
}

/// The characters of `s` after its first `k` UTF-8 bytes; `None` when `k`
/// is past the end or inside a character.
pub fn skip_utf8_chars(s: &[char], k: usize) -> (r: Option<Vec<char>>)
    ensures
        match r {
            Some(v) => skip_utf8_bytes(s@, k as int) == Some(v@),
            None => skip_utf8_bytes(s@, k as int) is None,
        },
{
    let n = s.len();
    let mut i: usize = 0;
    let mut left: usize = k;
    assert(s@.skip(0) =~= s@);
    while left > 0
        invariant
            n == s@.len(),
            i <= n,
            left <= k,
            skip_utf8_bytes(s@, k as int) == skip_utf8_bytes(s@.skip(i as int), left as int),
        decreases left,
    {
        if i >= n {
            return None;
        }
        let w = utf8_width_of(s[i]);
        assert(s@.skip(i as int)[0] == s@[i as int]);
        if w > left {
            return None;
        }
        assert(s@.skip(i as int).drop_first() =~= s@.skip(i + 1));
        left = left - w;
        i = i + 1;
    }
    let v = crate::text::slice_chars(s, i, n);
    assert(v@ =~= s@.skip(i as int));
    Some(v)
}

} // verus!
