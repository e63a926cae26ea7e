//! The middleware's batching of process intents: ordinary intents are
//! gathered into batches of at most `max_batch`, dispatched when a batch is
//! full or its time window closes; a kill or a priority change is
//! dispatched at once, on its own, after whatever was gathered before it.

use vstd::prelude::*;

verus! {

/// How the middleware batches intents.
pub struct MiddlewareConfig {
    /// How long a batch stays open, in milliseconds.
    pub batch_window_ms: u64,
    /// The most intents in one batch.
    pub max_batch: usize,
    /// The capacity of the intent channel.
    pub intent_buffer: usize,
    /// The capacity of the directive channel.
    pub directive_buffer: usize,
}

impl Default for MiddlewareConfig {
    /// A half-second window, batches of 64, channels of 256.
    fn default() -> (r: Self)
        ensures
            r.batch_window_ms == 500,
            r.max_batch == 64,
            r.intent_buffer == 256,
            r.directive_buffer == 256,
    {
        MiddlewareConfig { batch_window_ms: 500, max_batch: 64, intent_buffer: 256, directive_buffer: 256 }
    }
}

/// The kinds of process intent.
#[derive(Debug, Clone, Copy, PartialEq, Eq, Structural)]
pub enum IntentKind {
    /// Start a process.
    Spawn,
    /// Stop a process.
    Kill,
    /// Change the priority of a run.
    AdjustPriority,
}

/// Kills and priority changes skip batching.
pub open spec fn is_priority(kind: IntentKind) -> bool {
    kind == IntentKind::Kill || kind == IntentKind::AdjustPriority
}

/// Whether an intent of this kind skips batching.
pub fn is_priority_intent(intent: &IntentKind) -> (r: bool)
    ensures
        r == is_priority(*intent),
{
    match intent {
        IntentKind::Kill | IntentKind::AdjustPriority => true,
        IntentKind::Spawn => false,
    }
}

/// The batches `bs` laid end to end.
pub open spec fn concat_all<T>(bs: Seq<Seq<T>>) -> Seq<T>
    decreases bs.len(),
{
    if bs.len() == 0 {
        Seq::empty()
    } else {
        concat_all(bs.drop_last()) + bs.last()
    }
}

/// Laying out `a + b` lays out `a`, then `b`.
pub proof fn lemma_concat_all_append<T>(a: Seq<Seq<T>>, b: Seq<Seq<T>>)
    ensures
        concat_all(a + b) == concat_all(a) + concat_all(b),
    decreases b.len(),
{
    if b.len() == 0 {
        assert(a + b =~= a);
        assert(concat_all(a) + concat_all(b) =~= concat_all(a));
    } else {
        lemma_concat_all_append(a, b.drop_last());
        assert((a + b).drop_last() =~= a + b.drop_last());
        assert((a + b).last() == b.last());
        assert(concat_all(a) + concat_all(b) =~= concat_all(a) + concat_all(b.drop_last())
            + b.last());
    }
}

/// What one intent does to the open batch `pending`: the batches it
/// dispatches, and the open batch after it. A priority intent dispatches
/// the open batch (when not empty) and then itself alone; an ordinary one
/// joins the open batch, which is dispatched once it holds `max` intents.
pub open spec fn batch_step<T>(pending: Seq<T>, intent: T, priority: bool, max: nat) -> (
    Seq<Seq<T>>,
    Seq<T>,
) {
    if priority {
        (
            if pending.len() > 0 {
                seq![pending, seq![intent]]
            } else {
                seq![seq![intent]]
            },
            Seq::empty(),
        )
    } else if pending.len() + 1 >= max {
        (seq![pending.push(intent)], Seq::empty())
    } else {
        (Seq::empty(), pending.push(intent))
    }
}

/// What closing the window does: the open batch, when not empty, is
/// dispatched.
pub open spec fn batch_flush<T>(pending: Seq<T>) -> Seq<Seq<T>> {
    if pending.len() > 0 {
        seq![pending]
    } else {
        Seq::empty()
    }
}

/// The batches dispatched while the intents `inputs` (each with whether it
/// is a priority intent) arrive in order, and the open batch after them.
pub open spec fn batch_run<T>(inputs: Seq<(T, bool)>, pending: Seq<T>, max: nat) -> (
    Seq<Seq<T>>,
    Seq<T>,
)
    decreases inputs.len(),
{
    if inputs.len() == 0 {
        (Seq::empty(), pending)
    } else {
        let prev = batch_run(inputs.drop_last(), pending, max);
        let next = batch_step(prev.1, inputs.last().0, inputs.last().1, max);
        (prev.0 + next.0, next.1)
    }
}

/// The intents of `inputs`, in order.
pub open spec fn intents_of<T>(inputs: Seq<(T, bool)>) -> Seq<T> {
    Seq::new(inputs.len(), |i: int| inputs[i].0)
}

/// Batching loses, duplicates and reorders nothing: the batches dispatched
/// so far, laid end to end and followed by the open batch, are exactly the
/// intents received, in the order they came.
pub proof fn lemma_batching_keeps_order<T>(inputs: Seq<(T, bool)>, pending: Seq<T>, max: nat)
    ensures
        concat_all(batch_run(inputs, pending, max).0) + batch_run(inputs, pending, max).1 == pending
            + intents_of(inputs),
    decreases inputs.len(),
{
    if inputs.len() == 0 {
        assert(pending + intents_of(inputs) =~= pending);
    } else {
        let prev = batch_run(inputs.drop_last(), pending, max);
        let x = inputs.last();
        let next = batch_step(prev.1, x.0, x.1, max);
        lemma_batching_keeps_order(inputs.drop_last(), pending, max);
        lemma_concat_all_append(prev.0, next.0);
        lemma_step_keeps_order(prev.1, x.0, x.1, max);
        assert(intents_of(inputs) =~= intents_of(inputs.drop_last()).push(x.0));
        assert(concat_all(prev.0 + next.0) + next.1 =~= concat_all(prev.0) + (concat_all(next.0)
            + next.1));
        assert(pending + intents_of(inputs) =~= (pending + intents_of(inputs.drop_last())).push(
            x.0,
        ));
    }
}

/// One step keeps the order: what it dispatches, then the open batch after
/// it, is the open batch before it followed by the intent.
pub proof fn lemma_step_keeps_order<T>(pending: Seq<T>, intent: T, priority: bool, max: nat)
    ensures
        concat_all(batch_step(pending, intent, priority, max).0) + batch_step(
            pending,
            intent,
            priority,
            max,
        ).1 == pending.push(intent),
{
    let out = batch_step(pending, intent, priority, max).0;
    let e = Seq::<Seq<T>>::empty();
    assert(concat_all(e) == Seq::<T>::empty());
    if priority {
        if pending.len() > 0 {
            let first = out.drop_last();
            assert(first.drop_last() =~= e);
            assert(first.last() == pending);
            assert(concat_all(first) == concat_all(e) + pending);
            assert(concat_all(e) + pending =~= pending);
            assert(out.last() == seq![intent]);
            assert(concat_all(out) == concat_all(first) + seq![intent]);
            assert(pending + seq![intent] =~= pending.push(intent));
        } else {
            assert(out.drop_last() =~= e);
            assert(concat_all(out) == concat_all(e) + seq![intent]);
            assert(concat_all(e) + seq![intent] =~= pending.push(intent));
        }
        assert(concat_all(out) + Seq::<T>::empty() =~= concat_all(out));
    } else if pending.len() + 1 >= max {
        assert(out.drop_last() =~= e);
        assert(concat_all(out) == concat_all(e) + pending.push(intent));
        assert(concat_all(e) + pending.push(intent) =~= pending.push(intent));
        assert(concat_all(out) + Seq::<T>::empty() =~= concat_all(out));
    } else {
        assert(out =~= e);
        assert(concat_all(out) + pending.push(intent) =~= pending.push(intent));
    }
}

/// The intents waiting in the open batch, and the most a batch holds.
pub struct IntentBatcher<T> {
    batch: Vec<T>,
    max_batch: usize,
}

/// The mathematical values of dispatched batches.
pub open spec fn batches_view<T>(v: Seq<Vec<T>>) -> Seq<Seq<T>> {
    Seq::new(v.len(), |i: int| v[i]@)
}

impl<T> IntentBatcher<T> {
    /// The open batch.
    pub closed spec fn pending(&self) -> Seq<T> {
        self.batch@
    }

    /// The most intents a batch holds.
    pub closed spec fn max(&self) -> nat {
        self.max_batch as nat
    }

    /// A batcher with no open batch.
    pub fn new(max_batch: usize) -> (r: Self)
        ensures
            r.pending() == Seq::<T>::empty(),
            r.max() == max_batch,
    {
        IntentBatcher { batch: Vec::new(), max_batch }
    }

    /// Receives `intent`; returns the batches to dispatch now, in order.
    pub fn push(&mut self, intent: T, priority: bool) -> (out: Vec<Vec<T>>)
        ensures
            (batches_view(out@), final(self).pending()) == batch_step(
                old(self).pending(),
                intent,
                priority,
                old(self).max(),
            ),
            final(self).max() == old(self).max(),
    {
        let mut out: Vec<Vec<T>> = Vec::new();
        let ghost p0 = self.batch@;
        if priority {
            if self.batch.len() > 0 {
                let mut taken: Vec<T> = Vec::new();
                std::mem::swap(&mut taken, &mut self.batch);
                out.push(taken);
            }
            let mut single: Vec<T> = Vec::new();
            single.push(intent);
            out.push(single);
            proof {
                if p0.len() > 0 {
                    assert(batches_view(out@) =~= seq![p0, seq![intent]]);
                } else {
                    assert(batches_view(out@) =~= seq![seq![intent]]);
                }
            }
        } else {
            self.batch.push(intent);
            if self.batch.len() >= self.max_batch {
                let mut taken: Vec<T> = Vec::new();
                std::mem::swap(&mut taken, &mut self.batch);
                out.push(taken);
                assert(batches_view(out@) =~= seq![p0.push(intent)]);
            } else {
                assert(batches_view(out@) =~= Seq::<Seq<T>>::empty());
            }
        }
        out
    }

    /// Closes the window: returns the open batch to dispatch, if any.
    pub fn flush(&mut self) -> (out: Vec<Vec<T>>)
        ensures
            batches_view(out@) == batch_flush(old(self).pending()),
            final(self).pending() == Seq::<T>::empty(),
            final(self).max() == old(self).max(),
    {
        let mut out: Vec<Vec<T>> = Vec::new();
        let ghost p0 = self.batch@;
        if self.batch.len() > 0 {
            let mut taken: Vec<T> = Vec::new();
            std::mem::swap(&mut taken, &mut self.batch);
            out.push(taken);
            assert(batches_view(out@) =~= seq![p0]);
        } else {
            assert(batches_view(out@) =~= Seq::<Seq<T>>::empty());
        }
        out
    }
}


/// A kill or priority change is dispatched at once, alone, after whatever
/// was gathered before it; nothing stays open behind it. An ordinary
/// intent is never dispatched in a batch larger than `max` (or than one,
/// when `max` is zero).
pub proof fn lemma_priority_alone<T>(pending: Seq<T>, intent: T, priority: bool, max: nat)
    requires
        pending.len() < max || pending.len() == 0,
    ensures
        priority ==> batch_step(pending, intent, true, max).0.last() == seq![intent]
            && batch_step(pending, intent, true, max).1.len() == 0,
        !priority ==> forall|i: int|
            0 <= i < batch_step(pending, intent, false, max).0.len() ==> #[trigger] batch_step(
                pending,
                intent,
                false,
                max,
            ).0[i].len() <= if max == 0 {
                1
            } else {
                max
            },
{
}

/// The most intents a dispatched batch holds: `max`, or one when `max` is
/// zero.
pub open spec fn batch_bound(max: nat) -> nat {
    if max == 0 {
        1
    } else {
        max
    }
}

/// Every batch of `bs` holds at least one intent and at most
/// `batch_bound(max)`.
pub open spec fn batches_within<T>(bs: Seq<Seq<T>>, max: nat) -> bool {
    forall|i: int| 0 <= i < bs.len() ==> 1 <= #[trigger] bs[i].len() <= batch_bound(max)
}

/// Over a whole run, starting from an open batch below the bound (such as
/// a new batcher's empty one), no batch dispatched is empty or larger than
/// the bound, the open batch stays below it, and closing the window at
/// the end dispatches a batch within it too.
pub proof fn lemma_batch_sizes<T>(inputs: Seq<(T, bool)>, pending: Seq<T>, max: nat)
    requires
        pending.len() < batch_bound(max),
    ensures
        batches_within(batch_run(inputs, pending, max).0, max),
        batch_run(inputs, pending, max).1.len() < batch_bound(max),
        batches_within(batch_flush(batch_run(inputs, pending, max).1), max),
    decreases inputs.len(),
{
    if inputs.len() > 0 {
        lemma_batch_sizes(inputs.drop_last(), pending, max);
        let prev = batch_run(inputs.drop_last(), pending, max);
        let x = inputs.last();
        let next = batch_step(prev.1, x.0, x.1, max);
        assert(batches_within(next.0, max));
        let all = prev.0 + next.0;
        assert forall|i: int| 0 <= i < all.len() implies 1 <= #[trigger] all[i].len() <= batch_bound(
            max,
        ) by {
            if i < prev.0.len() {
                assert(all[i] == prev.0[i]);
            } else {
                assert(all[i] == next.0[i - prev.0.len()]);
            }
        }
    }
}

} // verus!
