//! The active scheduling strategy.

use vstd::prelude::*;

use crate::models::{ActiveStrategy, Strategy};

verus! {

/// A strategy as mathematical values: its kind and focus groups.
pub open spec fn strategy_view(s: ActiveStrategy) -> (Strategy, Option<Seq<i64>>) {
    (
        s.id,
        match s.focus {
            Some(f) => Some(f@),
            None => None,
        },
    )
}

/// A strategy as it is put in force: planning and winding down focus on no
/// group; the other strategies keep their focus, an absent one becoming
/// empty.
pub open spec fn normalized(s: (Strategy, Option<Seq<i64>>)) -> (Strategy, Option<Seq<i64>>) {
    match s.0 {
        Strategy::Planning | Strategy::WindDown => (s.0, Some(Seq::empty())),
        _ => match s.1 {
            Some(f) => s,
            None => (s.0, Some(Seq::empty())),
        },
    }
}

fn copy_focus(f: &Vec<i64>) -> (r: Vec<i64>)
    ensures
        r@ == f@,
{
    let mut r: Vec<i64> = Vec::new();
    let mut i: usize = 0;
    while i < f.len()
        invariant
            i <= f@.len(),
            r@ == f@.take(i as int),
        decreases f@.len() - i,
    {
        r.push(f[i]);
        assert(f@.take(i + 1) =~= f@.take(i as int).push(f@[i as int]));
        i = i + 1;
    }
    assert(f@.take(f@.len() as int) =~= f@);
    r
}

fn copy_strategy(s: &ActiveStrategy) -> (r: ActiveStrategy)
    ensures
        strategy_view(r) == strategy_view(*s),
{
    ActiveStrategy {
        id: s.id,
        focus: match &s.focus {
            Some(f) => Some(copy_focus(f)),
            None => None,
        },
    }
}

/// The strategy in force; planning with no focus at startup.
pub struct StrategyState {
    inner: ActiveStrategy,
}

impl StrategyState {
    /// The state at startup: planning, focused on no group.
    pub fn new() -> (r: Self)
        ensures
            r.current() == (Strategy::Planning, Some(Seq::<i64>::empty())),
    {
        let r = StrategyState { inner: ActiveStrategy { id: Strategy::Planning, focus: Some(Vec::new()) } };
        assert(strategy_view(r.inner).1->0 =~= Seq::<i64>::empty());
        r
    }

    /// The strategy in force.
    pub closed spec fn current(&self) -> (Strategy, Option<Seq<i64>>) {
        strategy_view(self.inner)
    }

    /// A copy of the strategy in force.
    pub fn snapshot(&self) -> (r: ActiveStrategy)
        ensures
            strategy_view(r) == self.current(),
    {
        copy_strategy(&self.inner)
    }

    /// Puts `strategy` in force, normalized, and returns it as put in force.
    pub fn update(&mut self, strategy: ActiveStrategy) -> (r: ActiveStrategy)
        ensures
            strategy_view(r) == normalized(strategy_view(strategy)),
            final(self).current() == strategy_view(r),
    {
        let mut strategy = strategy;
        match strategy.id {
            Strategy::Planning | Strategy::WindDown => {
                strategy.focus = Some(Vec::new());
            },
            _ => {
                if strategy.focus.is_none() {
                    strategy.focus = Some(Vec::new());
                }
            },
        }
        self.inner = copy_strategy(&strategy);
        strategy
    }
}


/// Putting a strategy in force twice changes nothing more than once, and a
/// strategy in force always has a focus list.
pub proof fn lemma_normalized_idempotent(s: (Strategy, Option<Seq<i64>>))
    ensures
        normalized(normalized(s)) == normalized(s),
        normalized(s).1 is Some,
        normalized(s).0 == s.0,
{
}

} // verus!
