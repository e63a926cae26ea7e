//! Pieces of command lines: optional flags, switches and repeated flags.

use vstd::prelude::*;

use crate::text::{opt_view, owned, push_string, strings_view};

verus! {

/// `[flag, value]` when the value is present.
pub open spec fn opt_arg(flag: Seq<char>, value: Option<Seq<char>>) -> Seq<Seq<char>> {
    match value {
        Some(v) => seq![flag, v],
        None => Seq::empty(),
    }
}

/// `[value]` when the value is present.
pub open spec fn opt_value(value: Option<Seq<char>>) -> Seq<Seq<char>> {
    match value {
        Some(v) => seq![v],
        None => Seq::empty(),
    }
}

/// `[flag]` when `on` holds.
pub open spec fn switch_arg(flag: Seq<char>, on: bool) -> Seq<Seq<char>> {
    if on {
        seq![flag]
    } else {
        Seq::empty()
    }
}

/// `flag v1 flag v2 ...` for every value in order.
pub open spec fn repeated_arg(flag: Seq<char>, values: Seq<Seq<char>>) -> Seq<Seq<char>>
    decreases values.len(),
{
    if values.len() == 0 {
        Seq::empty()
    } else {
        repeated_arg(flag, values.drop_last()) + seq![flag, values.last()]
    }
}

/// Appends the argument `s`.
pub fn push_lit(args: &mut Vec<String>, s: &str)
    ensures
        strings_view(final(args)@) == strings_view(old(args)@).push(s@),
{
    push_string(args, owned(s));
}

/// Appends `flag value` when the value is present.
pub fn push_opt(args: &mut Vec<String>, flag: &str, value: Option<String>)
    ensures
        strings_view(final(args)@) == strings_view(old(args)@) + opt_arg(flag@, opt_view(value)),
{
    match value {
        Some(v) => {
            let ghost v_view = v@;
            push_lit(args, flag);
            push_string(args, v);
            assert(strings_view(args@) =~= strings_view(old(args)@) + seq![flag@, v_view]);
        },
        None => {
            assert(strings_view(args@) =~= strings_view(old(args)@) + Seq::<Seq<char>>::empty());
        },
    }
}

/// Appends the value when it is present.
pub fn push_value(args: &mut Vec<String>, value: Option<String>)
    ensures
        strings_view(final(args)@) == strings_view(old(args)@) + opt_value(opt_view(value)),
{
    match value {
        Some(v) => {
            let ghost v_view = v@;
            push_string(args, v);
            assert(strings_view(args@) =~= strings_view(old(args)@) + seq![v_view]);
        },
        None => {
            assert(strings_view(args@) =~= strings_view(old(args)@) + Seq::<Seq<char>>::empty());
        },
    }
}

/// Appends `flag` when `on` holds.
pub fn push_switch(args: &mut Vec<String>, flag: &str, on: bool)
    ensures
        strings_view(final(args)@) == strings_view(old(args)@) + switch_arg(flag@, on),
{
    if on {
        push_lit(args, flag);
        assert(strings_view(args@) =~= strings_view(old(args)@) + seq![flag@]);
    } else {
        assert(strings_view(args@) =~= strings_view(old(args)@) + Seq::<Seq<char>>::empty());
    }
}

/// Appends `flag v` for every value, in order.
pub fn push_repeated(args: &mut Vec<String>, flag: &str, values: Vec<String>)
    ensures
        strings_view(final(args)@) == strings_view(old(args)@) + repeated_arg(
            flag@,
            strings_view(values@),
        ),
{
    let ghost start = strings_view(args@);
    let ghost all = strings_view(values@);
    let mut i: usize = 0;
    assert(all.take(0) =~= Seq::<Seq<char>>::empty());
    assert(start + repeated_arg(flag@, Seq::<Seq<char>>::empty()) =~= start);
    while i < values.len()
        invariant
            i <= values@.len(),
            all == strings_view(values@),
            strings_view(args@) == start + repeated_arg(flag@, all.take(i as int)),
        decreases values@.len() - i,
    {
        push_lit(args, flag);
        push_string(args, values[i].clone());
        assert(all.take(i + 1).drop_last() =~= all.take(i as int));
        assert(all.take(i + 1).last() == all[i as int]);
        assert(strings_view(args@) =~= start + repeated_arg(flag@, all.take(i + 1)));
        i = i + 1;
    }
    assert(all.take(values@.len() as int) =~= all);
}

} // verus!
