//! Unix paths as text: their components (as `std::path::Path::components`
//! sees them), `starts_with`, `join`, `file_name`, and lexical cleaning.

use vstd::prelude::*;

use crate::split::{push_vec, split_chars, split_on, vecs_view};
use crate::text::{chars_eq, chars_of, joined, push_all, string_of};

verus! {

/// The text of a root component.
pub open spec fn root_comp() -> Seq<char> {
    seq!['/']
}

/// The text of a current-directory component.
pub open spec fn cur_comp() -> Seq<char> {
    seq!['.']
}

/// The parts of a path between slashes that name something: neither empty
/// nor `.`.
pub open spec fn named_parts(parts: Seq<Seq<char>>) -> Seq<Seq<char>>
    decreases parts.len(),
{
    if parts.len() == 0 {
        Seq::empty()
    } else {
        let rest = named_parts(parts.drop_first());
        if parts[0].len() == 0 || parts[0] == cur_comp() {
            rest
        } else {
            seq![parts[0]] + rest
        }
    }
}

/// The components of the Unix path `p`: `/` for the root, `.` for a leading
/// current directory of a relative path, then the named parts (`..`
/// included), as `Path::components` yields them.
pub open spec fn components(p: Seq<char>) -> Seq<Seq<char>> {
    let parts = split_on(p, '/');
    let rooted = p.len() > 0 && p[0] == '/';
    let lead = if rooted {
        seq![root_comp()]
    } else if parts[0] == cur_comp() {
        seq![cur_comp()]
    } else {
        Seq::empty()
    };
    lead + named_parts(parts)
}

/// `p` is absolute (`Path::is_absolute` on Unix).
pub open spec fn is_absolute(p: Seq<char>) -> bool {
    p.len() > 0 && p[0] == '/'
}

/// `p` starts with the path `base`, comparing whole components
/// (`Path::starts_with`).
pub open spec fn path_starts_with(p: Seq<char>, base: Seq<char>) -> bool {
    components(base).is_prefix_of(components(p))
}

/// `base` joined with `rel` (`Path::join` on Unix): an absolute `rel`
/// replaces `base`, otherwise a `/` is put between them unless `base` is
/// empty or already ends with one.
pub open spec fn join(base: Seq<char>, rel: Seq<char>) -> Seq<char> {
    if is_absolute(rel) || base.len() == 0 {
        rel
    } else if base.last() == '/' {
        base + rel
    } else {
        base + seq!['/'] + rel
    }
}

/// The final component of `p` when it names something (`Path::file_name`).
pub open spec fn file_name(p: Seq<char>) -> Option<Seq<char>> {
    let c = components(p);
    if c.len() == 0 {
        None
    } else {
        let last = c.last();
        if last == root_comp() || last == cur_comp() || last == seq!['.', '.'] {
            None
        } else {
            Some(last)
        }
    }
}

/// What `Path::strip_prefix` leaves of `p` once the leading components
/// `base` are taken off.
pub uninterp spec fn path_remainder(p: Seq<char>, base: Seq<char>) -> Seq<char>;

/// `Path::new(p).strip_prefix(base)`, as text. Stated: it succeeds exactly
/// when `base` is a prefix of `p` by whole components (the documentation of
/// `strip_prefix` and `starts_with`), and then gives the named remainder,
/// which joined onto `base` yields `p` again, component for component (the
/// documentation of `strip_prefix`); how the remainder's text is spelled
/// beyond that is left unsaid.
#[verifier::external_body]
pub fn strip_path_prefix(p: &str, base: &str) -> (r: Option<String>)
    ensures
        match r {
            Some(s) => path_starts_with(p@, base@) && s@ == path_remainder(p@, base@) && components(
                join(base@, s@),
            ) == components(p@),
            None => !path_starts_with(p@, base@),
        },
{
    match std::path::Path::new(p).strip_prefix(base) {
        Ok(rest) => Some(rest.to_string_lossy().into_owned()),
        Err(_) => None,
    }
}

/// The parent-directory component.
pub open spec fn parent_comp() -> Seq<char> {
    seq!['.', '.']
}

/// What one component does to the cleaned components `out`: `.` is
/// dropped; `..` is dropped after the root, removes a preceding named
/// component, and is otherwise kept; anything else is kept.
pub open spec fn clean_step(out: Seq<Seq<char>>, c: Seq<char>) -> Seq<Seq<char>> {
    if c == cur_comp() {
        out
    } else if c == parent_comp() {
        if out.len() > 0 && out.last() == root_comp() {
            out
        } else if out.len() > 0 && out.last() != cur_comp() && out.last() != parent_comp() {
            out.drop_last()
        } else {
            out.push(c)
        }
    } else {
        out.push(c)
    }
}

/// The components `cs` cleaned one after the other.
pub open spec fn clean_components(cs: Seq<Seq<char>>) -> Seq<Seq<char>>
    decreases cs.len(),
{
    if cs.len() == 0 {
        Seq::empty()
    } else {
        clean_step(clean_components(cs.drop_last()), cs.last())
    }
}

/// The path made of the components `out`: `.` when there are none, the
/// root followed by the others joined with `/`, or all of them joined with
/// `/`.
pub open spec fn path_of_components(out: Seq<Seq<char>>) -> Seq<char> {
    if out.len() == 0 {
        cur_comp()
    } else if out[0] == root_comp() {
        root_comp() + joined(out.drop_first(), seq!['/'])
    } else {
        joined(out, seq!['/'])
    }
}

/// `p` cleaned lexically, as path-clean documents it: repeated slashes
/// become one, `.` elements go, a `..` removes the named element before it,
/// `/..` at the start of a rooted path becomes `/`, leading `..` elements
/// of a relative path stay, and an empty result is `.`.
pub open spec fn cleaned(p: Seq<char>) -> Seq<char> {
    path_of_components(clean_components(components(p)))
}

/// `path_clean::clean(p)`: the lexical cleaning `cleaned` of `p`, which
/// folds the components of `p` as the crate's documentation lists.
#[verifier::external_body]
pub fn clean_path(p: &str) -> (r: String)
    ensures
        r@ == cleaned(p@),
{
    path_clean::clean(p).to_string_lossy().into_owned()
}

fn named_parts_of(parts: &Vec<Vec<char>>) -> (r: Vec<Vec<char>>)
    ensures
        vecs_view(r@) == named_parts(vecs_view(parts@)),
{
    let ghost all = vecs_view(parts@);
    let mut keep: Vec<Vec<char>> = Vec::new();
    let dot: Vec<char> = chars_of(".");
    proof {
        reveal_strlit(".");
    }
    assert(dot@ =~= cur_comp());
    assert(all.skip(0) =~= all);
    let mut i: usize = 0;
    while i < parts.len()
        invariant
            i <= parts@.len(),
            all == vecs_view(parts@),
            dot@ == cur_comp(),
            vecs_view(keep@) + named_parts(all.skip(i as int)) == named_parts(all),
        decreases parts@.len() - i,
    {
        let p = &parts[i];
        assert(all.skip(i as int).drop_first() =~= all.skip(i + 1));
        assert(all.skip(i as int)[0] == p@);
        if p.len() == 0 || chars_eq(p, &dot) {
        } else {
            let ghost before = vecs_view(keep@);
            keep.push(copy_chars(p));
            assert(vecs_view(keep@) =~= before.push(p@));
            assert(before + named_parts(all.skip(i as int)) =~= vecs_view(keep@) + named_parts(
                all.skip(i + 1),
            ));
        }
        i = i + 1;
    }
    assert(all.skip(parts@.len() as int) =~= Seq::<Seq<char>>::empty());
    assert(vecs_view(keep@) + named_parts(Seq::<Seq<char>>::empty()) =~= vecs_view(keep@));
    keep
}

/// A copy of `v`.
pub fn copy_chars(v: &Vec<char>) -> (r: Vec<char>)
    ensures
        r@ == v@,
{
    let r = crate::text::slice_chars(v, 0, v.len());
    assert(r@ =~= v@);
    r
}

/// The components of `p`.
pub fn components_of(p: &[char]) -> (r: Vec<Vec<char>>)
    ensures
        vecs_view(r@) == components(p@),
{
    let parts = split_chars(p, '/');
    let ghost parts_v = vecs_view(parts@);
    let mut r: Vec<Vec<char>> = Vec::new();
    proof {
        crate::split::lemma_split_nonempty(p@, '/');
    }
    let rooted = p.len() > 0 && p[0] == '/';
    let dot: Vec<char> = chars_of(".");
    proof {
        reveal_strlit(".");
    }
    assert(dot@ =~= cur_comp());
    if rooted {
        let mut root: Vec<char> = Vec::new();
        root.push('/');
        push_vec(&mut r, root);
        assert(vecs_view(r@) =~= seq![root_comp()]);
    } else if chars_eq(&parts[0], &dot) {
        assert(parts_v[0] == cur_comp());
        push_vec(&mut r, dot);
        assert(vecs_view(r@) =~= seq![cur_comp()]);
    } else {
        assert(parts_v[0] != cur_comp());
        assert(vecs_view(r@) =~= Seq::<Seq<char>>::empty());
    }
    let ghost lead = vecs_view(r@);
    let named = named_parts_of(&parts);
    let mut i: usize = 0;
    while i < named.len()
        invariant
            i <= named@.len(),
            vecs_view(r@) == lead + vecs_view(named@).take(i as int),
        decreases named@.len() - i,
    {
        let ghost before = vecs_view(r@);
        push_vec(&mut r, copy_chars(&named[i]));
        assert(vecs_view(named@).take(i + 1) =~= vecs_view(named@).take(i as int).push(
            named@[i as int]@,
        ));
        assert(vecs_view(r@) =~= lead + vecs_view(named@).take(i + 1));
        i = i + 1;
    }
    assert(vecs_view(named@).take(named@.len() as int) =~= vecs_view(named@));
    r
}

/// Whether `p` starts with `base`, comparing whole components.
pub fn path_starts_with_chars(p: &[char], base: &[char]) -> (r: bool)
    ensures
        r == path_starts_with(p@, base@),
{
    let cp = components_of(p);
    let cb = components_of(base);
    let ghost vp = vecs_view(cp@);
    let ghost vb = vecs_view(cb@);
    if cb.len() > cp.len() {
        return false;
    }
    let mut i: usize = 0;
    while i < cb.len()
        invariant
            cb@.len() <= cp@.len(),
            vp == vecs_view(cp@),
            vb == vecs_view(cb@),
            vp == components(p@),
            vb == components(base@),
            i <= cb@.len(),
            forall|j: int| 0 <= j < i ==> vb[j] == vp[j],
        decreases cb@.len() - i,
    {
        if !chars_eq(&cb[i], &cp[i]) {
            assert(vb[i as int] != vp[i as int]);
            assert(!vb.is_prefix_of(vp)) by {
                if vb.is_prefix_of(vp) {
                    assert(vb[i as int] == vp.subrange(0, vb.len() as int)[i as int]);
                }
            }
            return false;
        }
        i = i + 1;
    }
    assert(vb =~= vp.subrange(0, vb.len() as int));
    true
}

/// `base` joined with `rel`.
pub fn join_chars(base: &[char], rel: &[char]) -> (r: Vec<char>)
    ensures
        r@ == join(base@, rel@),
{
    let mut out: Vec<char> = Vec::new();
    if (rel.len() > 0 && rel[0] == '/') || base.len() == 0 {
        push_all(&mut out, rel);
        assert(out@ =~= rel@);
        return out;
    }
    push_all(&mut out, base);
    if base[base.len() - 1] != '/' {
        out.push('/');
    }
    push_all(&mut out, rel);
    out
}

/// `base` joined with `rel`, as a string.
pub fn join_str(base: &str, rel: &str) -> (r: String)
    ensures
        r@ == join(base@, rel@),
{
    let b = chars_of(base);
    let l = chars_of(rel);
    let j = join_chars(&b, &l);
    string_of(&j)
}

/// The final component of `p` when it names something.
pub fn file_name_of(p: &[char]) -> (r: Option<Vec<char>>)
    ensures
        match r {
            Some(n) => file_name(p@) == Some(n@),
            None => file_name(p@) is None,
        },
{
    let c = components_of(p);
    if c.len() == 0 {
        return None;
    }
    let last = &c[c.len() - 1];
    let ghost cv = vecs_view(c@);
    assert(cv.last() == last@);
    let dot = chars_of(".");
    let dotdot = chars_of("..");
    proof {
        reveal_strlit(".");
        reveal_strlit("..");
    }
    let mut root: Vec<char> = Vec::new();
    root.push('/');
    assert(root@ =~= root_comp());
    assert(dotdot@ =~= seq!['.', '.']);
    assert(dot@ =~= cur_comp());
    if chars_eq(last, &root) || chars_eq(last, &dot) || chars_eq(last, &dotdot) {
        None
    } else {
        Some(copy_chars(last))
    }
}

} // verus!
