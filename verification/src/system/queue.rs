//! The worker queue as the system layer sees it: which workers are known,
//! which task each busy worker holds, the hints it gives the orchestrator,
//! and the events it records for the feed.

use vstd::prelude::*;

use crate::models::{ActiveStrategy, FeedLevel, Strategy};
use crate::system::events::{EventDetails, SystemActor, SystemEvent, SystemEventCategory};
use crate::text::{i64_to_string, opt_view, owned, signed_decimal, strings_view};

verus! {

/// The task a worker is working on.
#[derive(Debug, Clone)]
pub struct AssignedTask {
    pub task_id: i64,
    pub slug: Option<String>,
}

/// A task assignment as mathematical values: the task and its slug.
pub type AssignedView = (i64, Option<Seq<char>>);

impl View for AssignedTask {
    type V = AssignedView;

    open spec fn view(&self) -> AssignedView {
        (self.task_id, opt_view(self.slug))
    }
}

/// Why an assignment is refused.
#[derive(Debug, Clone, Copy, PartialEq, Eq, Structural)]
pub enum QueueError {
    /// The worker already has an assignment.
    WorkerBusy,
}

impl QueueError {
    /// The error's message.
    pub fn message(&self) -> (r: &'static str)
        ensures
            r@ == "worker already has an assignment"@,
    {
        "worker already has an assignment"
    }
}

/// A suggestion for the orchestrator about an idle worker.
#[derive(Debug, Clone)]
pub enum OrchestratorHint {
    /// Give `to_worker` a task from one of `from_groups` (any group when
    /// empty).
    AssignTask { to_worker: i64, from_groups: Vec<String> },
    /// Check in on `to_worker`.
    SendSupport { to_worker: i64 },
}

/// The worker a hint is about.
pub open spec fn hint_worker(h: OrchestratorHint) -> i64 {
    match h {
        OrchestratorHint::AssignTask { to_worker, .. } => to_worker,
        OrchestratorHint::SendSupport { to_worker } => to_worker,
    }
}

/// The map from each worker in `s` to its assignment (the last entry for
/// a worker wins).
pub open spec fn assignment_map(s: Seq<(i64, AssignedTask)>) -> Map<i64, AssignedView>
    decreases s.len(),
{
    if s.len() == 0 {
        Map::empty()
    } else {
        assignment_map(s.drop_last()).insert(s.last().0, s.last().1@)
    }
}

/// No worker appears twice in `s`.
pub open spec fn distinct_keys(s: Seq<(i64, AssignedTask)>) -> bool {
    forall|i: int, j: int| 0 <= i < j < s.len() ==> #[trigger] s[i].0 != #[trigger] s[j].0
}

/// With no worker twice, a worker is in the map exactly when it has an
/// entry, and maps to that entry's assignment.
proof fn lemma_assignment_map(s: Seq<(i64, AssignedTask)>, w: i64)
    requires
        distinct_keys(s),
    ensures
        assignment_map(s).dom().contains(w) <==> exists|i: int| 0 <= i < s.len() && s[i].0 == w,
        forall|i: int| 0 <= i < s.len() && s[i].0 == w ==> assignment_map(s)[w] == s[i].1@,
    decreases s.len(),
{
    if s.len() > 0 {
        let t = s.drop_last();
        assert(distinct_keys(t)) by {
            assert forall|i: int, j: int| 0 <= i < j < t.len() implies #[trigger] t[i].0
                != #[trigger] t[j].0 by {
                assert(t[i] == s[i] && t[j] == s[j]);
            }
        }
        lemma_assignment_map(t, w);
        if assignment_map(s).dom().contains(w) && s.last().0 != w {
            let i = choose|i: int| 0 <= i < t.len() && t[i].0 == w;
            assert(s[i] == t[i]);
        }
        if exists|i: int| 0 <= i < s.len() && s[i].0 == w {
            let i = choose|i: int| 0 <= i < s.len() && s[i].0 == w;
            if i < s.len() - 1 {
                assert(t[i] == s[i]);
            }
        }
        assert forall|i: int| 0 <= i < s.len() && s[i].0 == w implies assignment_map(s)[w]
            == s[i].1@ by {
            if i < s.len() - 1 {
                assert(t[i] == s[i]);
                assert(s[i].0 != s[s.len() - 1].0);
            }
        }
    }
}

/// The workers the coordinator knows, their assignments, and the events
/// not yet handed to the feed.
pub struct QueueCoordinator {
    assignments: Vec<(i64, AssignedTask)>,
    known_workers: Vec<i64>,
    events: Vec<SystemEvent>,
}

/// The workers known but without an assignment.
pub open spec fn idle(known: Set<i64>, assignments: Map<i64, AssignedView>) -> Set<i64> {
    known.filter(|w: i64| !assignments.dom().contains(w))
}

/// The focus of a strategy as a sequence.
pub open spec fn focus_view(focus: Option<Vec<i64>>) -> Option<Seq<i64>> {
    match focus {
        Some(f) => Some(f@),
        None => None,
    }
}

/// The focus groups of a strategy, as text.
pub open spec fn focus_groups(focus: Option<Seq<i64>>) -> Seq<Seq<char>> {
    match focus {
        Some(f) => Seq::new(f.len(), |i: int| signed_decimal(f[i] as int)),
        None => Seq::empty(),
    }
}

/// The hint an idle worker gets under strategy `id`: a task from the focus
/// groups while work is being handed out, a support check while planning
/// or winding down.
pub open spec fn hint_for(id: Strategy, worker: i64, groups: Seq<Seq<char>>, h: OrchestratorHint) -> bool {
    match id {
        Strategy::Planning | Strategy::WindDown => h == OrchestratorHint::SendSupport {
            to_worker: worker,
        },
        _ => h matches OrchestratorHint::AssignTask { to_worker, from_groups } && to_worker
            == worker && strings_view(from_groups@) == groups,
    }
}

/// The hints follow the strategy: while planning or winding down an idle
/// worker only ever gets a support check, never new work; under every
/// other strategy it is offered a task from exactly the focus groups.
pub proof fn lemma_hints_follow_strategy(
    id: Strategy,
    worker: i64,
    groups: Seq<Seq<char>>,
    h: OrchestratorHint,
)
    requires
        hint_for(id, worker, groups, h),
    ensures
        hint_worker(h) == worker,
        id == Strategy::Planning || id == Strategy::WindDown ==> h
            == (OrchestratorHint::SendSupport { to_worker: worker }),
        id == Strategy::Planning || id == Strategy::WindDown ==> !(h is AssignTask),
        !(id == Strategy::Planning || id == Strategy::WindDown) ==> (h matches OrchestratorHint::AssignTask { to_worker, from_groups }
            && to_worker == worker && strings_view(from_groups@) == groups),
{
}

/// `e` is the strategy event recording the hint `text` for the
/// orchestrator.
pub open spec fn is_hint_event(e: SystemEvent, text: Seq<char>) -> bool {
    &&& e.level == FeedLevel::Info
    &&& e.source == SystemActor::System
    &&& e.target == SystemActor::Orchestrator
    &&& e.category == SystemEventCategory::Strategy
    &&& e.summary@ == text
    &&& (e.details matches EventDetails::Hint(h) && h@ == text)
}

/// `e` is the user event carrying `message` from `source` to `target`.
pub open spec fn is_message_event(
    e: SystemEvent,
    source: SystemActor,
    target: SystemActor,
    message: Seq<char>,
) -> bool {
    &&& e.level == FeedLevel::Info
    &&& e.source == source
    &&& e.target == target
    &&& e.category == SystemEventCategory::User
    &&& e.summary@ == message
    &&& (e.details matches EventDetails::Message(m) && m@ == message)
}

/// `e` is the warning that a validation of `worker_id`'s work failed with
/// `explanation`.
pub open spec fn is_validation_event(e: SystemEvent, worker_id: i64, explanation: Seq<char>) -> bool {
    &&& e.level == FeedLevel::Warning
    &&& e.source == SystemActor::System
    &&& e.target == SystemActor::Worker(worker_id)
    &&& e.category == SystemEventCategory::Validation
    &&& e.summary@ == explanation
    &&& (e.details matches EventDetails::Validation { worker, details } && worker == worker_id
        && details@ == explanation)
}

fn copy_task(t: &AssignedTask) -> (r: AssignedTask)
    ensures
        r@ == t@,
{
    AssignedTask {
        task_id: t.task_id,
        slug: match &t.slug {
            Some(s) => Some(owned(s.as_str())),
            None => None,
        },
    }
}

impl QueueCoordinator {
    /// No worker is assigned twice and no worker is known twice.
    #[verifier::type_invariant]
    spec fn wf(&self) -> bool {
        &&& distinct_keys(self.assignments@)
        &&& self.known_workers@.no_duplicates()
    }

    /// The workers the coordinator knows.
    pub closed spec fn known(&self) -> Set<i64> {
        self.known_workers@.to_set()
    }

    /// The assignment of each busy worker.
    pub closed spec fn assignments(&self) -> Map<i64, AssignedView> {
        assignment_map(self.assignments@)
    }

    /// The events recorded and not yet drained, oldest first.
    pub closed spec fn events(&self) -> Seq<SystemEvent> {
        self.events@
    }

    /// A coordinator that knows no worker and holds no event.
    pub fn new() -> (r: Self)
        ensures
            r.known() == Set::<i64>::empty(),
            r.assignments() == Map::<i64, AssignedView>::empty(),
            r.events() == Seq::<SystemEvent>::empty(),
    {
        let r = QueueCoordinator { assignments: Vec::new(), known_workers: Vec::new(), events: Vec::new() };
        assert(r.known_workers@.to_set() =~= Set::<i64>::empty());
        r
    }

    fn find_assignment(&self, worker_id: i64) -> (r: Option<usize>)
        ensures
            match r {
                Some(i) => i < self.assignments@.len() && self.assignments@[i as int].0 == worker_id,
                None => forall|i: int|
                    0 <= i < self.assignments@.len() ==> self.assignments@[i].0 != worker_id,
            },
    {
        proof {
            use_type_invariant(&*self);
        }
        let mut i: usize = 0;
        while i < self.assignments.len()
            invariant
                i <= self.assignments@.len(),
                forall|j: int| 0 <= j < i ==> self.assignments@[j].0 != worker_id,
            decreases self.assignments@.len() - i,
        {
            if self.assignments[i].0 == worker_id {
                return Some(i);
            }
            i = i + 1;
        }
        None
    }

    fn find_known(&self, worker_id: i64) -> (r: Option<usize>)
        ensures
            match r {
                Some(i) => i < self.known_workers@.len() && self.known_workers@[i as int] == worker_id,
                None => !self.known_workers@.contains(worker_id),
            },
    {
        proof {
            use_type_invariant(&*self);
        }
        let mut i: usize = 0;
        while i < self.known_workers.len()
            invariant
                i <= self.known_workers@.len(),
                forall|j: int| 0 <= j < i ==> self.known_workers@[j] != worker_id,
            decreases self.known_workers@.len() - i,
        {
            if self.known_workers[i] == worker_id {
                return Some(i);
            }
            i = i + 1;
        }
        None
    }

    /// Knows `worker_id` from now on.
    pub fn register_worker(&mut self, worker_id: i64)
        ensures
            final(self).known() == old(self).known().insert(worker_id),
            final(self).assignments() == old(self).assignments(),
            final(self).events() == old(self).events(),
    {
        proof {
            use_type_invariant(&*self);
        }
        if self.find_known(worker_id).is_none() {
            let ghost k0 = self.known_workers@;
            let mut kw: Vec<i64> = Vec::new();
            std::mem::swap(&mut kw, &mut self.known_workers);
            kw.push(worker_id);
            assert(kw@.to_set() =~= k0.to_set().insert(worker_id)) by {
                assert forall|w: i64| #[trigger] kw@.contains(w) <==> (k0.contains(w)
                    || w == worker_id) by {
                    if kw@.contains(w) {
                        let j = choose|j: int| 0 <= j < kw@.len() && kw@[j] == w;
                        if j < k0.len() {
                            assert(k0[j] == w);
                        }
                    }
                    if k0.contains(w) {
                        let j = choose|j: int| 0 <= j < k0.len() && k0[j] == w;
                        assert(kw@[j] == w);
                    }
                    if w == worker_id {
                        assert(kw@[k0.len() as int] == w);
                    }
                }
            }
            self.known_workers = kw;
        } else {
            assert(self.known_workers@.to_set() =~= self.known_workers@.to_set().insert(worker_id));
        }
    }

    fn remove_assignment_at(&mut self, i: usize)
        requires
            i < old(self).assignments@.len(),
        ensures
            final(self).assignments() == old(self).assignments().remove(
                old(self).assignments@[i as int].0,
            ),
            final(self).known_workers@ == old(self).known_workers@,
            final(self).events@ == old(self).events@,
    {
        proof {
            use_type_invariant(&*self);
        }
        let ghost s0 = self.assignments@;
        let ghost w = s0[i as int].0;
        let mut asg: Vec<(i64, AssignedTask)> = Vec::new();
        std::mem::swap(&mut asg, &mut self.assignments);
        let _ = asg.remove(i);
        let ghost s1 = asg@;
        assert(s1 =~= s0.remove(i as int));
        assert(distinct_keys(s1)) by {
            assert forall|a: int, b: int| 0 <= a < b < s1.len() implies #[trigger] s1[a].0
                != #[trigger] s1[b].0 by {
                let a0 = if a < i { a } else { a + 1 };
                let b0 = if b < i { b } else { b + 1 };
                assert(s1[a] == s0[a0]);
                assert(s1[b] == s0[b0]);
            }
        }
        assert(assignment_map(s1) =~= assignment_map(s0).remove(w)) by {
            assert forall|v: i64| #[trigger] assignment_map(s1).dom().contains(v) <==> assignment_map(
                s0,
            ).remove(w).dom().contains(v) by {
                lemma_assignment_map(s0, v);
                lemma_assignment_map(s1, v);
                if assignment_map(s1).dom().contains(v) {
                    let k = choose|k: int| 0 <= k < s1.len() && s1[k].0 == v;
                    let k0 = if k < i { k } else { k + 1 };
                    assert(s1[k] == s0[k0]);
                }
                if assignment_map(s0).dom().contains(v) && v != w {
                    let k = choose|k: int| 0 <= k < s0.len() && s0[k].0 == v;
                    if k < i {
                        assert(s1[k] == s0[k]);
                    } else {
                        assert(k != i);
                        assert(s1[k - 1] == s0[k]);
                    }
                }
            }
            assert forall|v: i64| #[trigger] assignment_map(s1).dom().contains(v) implies assignment_map(
                s1,
            )[v] == assignment_map(s0).remove(w)[v] by {
                lemma_assignment_map(s0, v);
                lemma_assignment_map(s1, v);
                let k = choose|k: int| 0 <= k < s1.len() && s1[k].0 == v;
                let k0 = if k < i { k } else { k + 1 };
                assert(s1[k] == s0[k0]);
            }
        }
        self.assignments = asg;
    }

    fn remove_known_at(&mut self, i: usize)
        requires
            i < old(self).known_workers@.len(),
        ensures
            final(self).known() == old(self).known().remove(old(self).known_workers@[i as int]),
            final(self).assignments@ == old(self).assignments@,
            final(self).events@ == old(self).events@,
    {
        proof {
            use_type_invariant(&*self);
        }
        let ghost k0 = self.known_workers@;
        let ghost w = k0[i as int];
        let mut kw: Vec<i64> = Vec::new();
        std::mem::swap(&mut kw, &mut self.known_workers);
        let _ = kw.remove(i);
        let ghost k1 = kw@;
        assert(k1 =~= k0.remove(i as int));
        assert forall|a: int, b: int| 0 <= a < b < k1.len() implies k1[a] != k1[b] by {
            let a0 = if a < i { a } else { a + 1 };
            let b0 = if b < i { b } else { b + 1 };
            assert(k1[a] == k0[a0]);
            assert(k1[b] == k0[b0]);
        }
        assert(k1.to_set() =~= k0.to_set().remove(w)) by {
            assert forall|v: i64| #[trigger] k1.contains(v) <==> (k0.contains(v) && v != w) by {
                if k1.contains(v) {
                    let k = choose|k: int| 0 <= k < k1.len() && k1[k] == v;
                    let kk = if k < i { k } else { k + 1 };
                    assert(k1[k] == k0[kk]);
                }
                if k0.contains(v) && v != w {
                    let k = choose|k: int| 0 <= k < k0.len() && k0[k] == v;
                    if k < i {
                        assert(k1[k] == k0[k]);
                    } else {
                        assert(k1[k - 1] == k0[k]);
                    }
                }
            }
        }
        self.known_workers = kw;
    }

    /// Forgets `worker_id` and its assignment.
    pub fn unregister_worker(&mut self, worker_id: i64)
        ensures
            final(self).known() == old(self).known().remove(worker_id),
            final(self).assignments() == old(self).assignments().remove(worker_id),
            final(self).events() == old(self).events(),
    {
        proof {
            use_type_invariant(&*self);
        }
        match self.find_known(worker_id) {
            Some(i) => self.remove_known_at(i),
            None => {
                assert(self.known_workers@.to_set() =~= self.known_workers@.to_set().remove(
                    worker_id,
                ));
            },
        }
        self.clear_assignment(worker_id);
    }

    /// The assignment of `worker_id`, if it has one.
    pub fn assigned_task(&self, worker_id: i64) -> (r: Option<AssignedTask>)
        ensures
            match r {
                Some(t) => self.assignments().dom().contains(worker_id) && self.assignments()[worker_id]
                    == t@,
                None => !self.assignments().dom().contains(worker_id),
            },
    {
        proof {
            use_type_invariant(&*self);
        }
        proof {
            lemma_assignment_map(self.assignments@, worker_id);
        }
        match self.find_assignment(worker_id) {
            Some(i) => Some(copy_task(&self.assignments[i].1)),
            None => None,
        }
    }

    /// Gives `worker_id` the task `task_id`, and knows the worker from now
    /// on; refused, changing nothing, while the worker already has an
    /// assignment.
    pub fn assign_task(&mut self, worker_id: i64, task_id: i64, slug: Option<String>) -> (r: Result<
        (),
        QueueError,
    >)
        ensures
            old(self).assignments().dom().contains(worker_id) ==> r == Err::<(), QueueError>(
                QueueError::WorkerBusy,
            ) && final(self).assignments() == old(self).assignments() && final(self).known()
                == old(self).known(),
            !old(self).assignments().dom().contains(worker_id) ==> r is Ok && final(self).assignments()
                == old(self).assignments().insert(worker_id, (task_id, opt_view(slug)))
                && final(self).known() == old(self).known().insert(worker_id),
            final(self).events() == old(self).events(),
    {
        proof {
            use_type_invariant(&*self);
        }
        proof {
            lemma_assignment_map(self.assignments@, worker_id);
        }
        if self.find_assignment(worker_id).is_some() {
            return Err(QueueError::WorkerBusy);
        }
        let ghost s0 = self.assignments@;
        let t = AssignedTask { task_id, slug };
        let mut asg: Vec<(i64, AssignedTask)> = Vec::new();
        std::mem::swap(&mut asg, &mut self.assignments);
        asg.push((worker_id, t));
        assert(asg@.drop_last() =~= s0);
        assert(distinct_keys(asg@)) by {
            assert forall|a: int, b: int| 0 <= a < b < asg@.len() implies #[trigger] asg@[a].0
                != #[trigger] asg@[b].0 by {
                assert(asg@[a] == s0[a]);
                if b < s0.len() {
                    assert(asg@[b] == s0[b]);
                }
            }
        }
        self.assignments = asg;
        self.register_worker(worker_id);
        Ok(())
    }

    /// Takes `worker_id`'s assignment away.
    pub fn clear_assignment(&mut self, worker_id: i64)
        ensures
            final(self).assignments() == old(self).assignments().remove(worker_id),
            final(self).known() == old(self).known(),
            final(self).events() == old(self).events(),
    {
        proof {
            use_type_invariant(&*self);
        }
        proof {
            lemma_assignment_map(self.assignments@, worker_id);
        }
        match self.find_assignment(worker_id) {
            Some(i) => self.remove_assignment_at(i),
            None => {
                assert(self.assignments() =~= self.assignments().remove(worker_id));
            },
        }
    }

    /// Records `event` for the feed.
    pub fn record_event(&mut self, event: SystemEvent)
        ensures
            final(self).events() == old(self).events().push(event),
            final(self).known() == old(self).known(),
            final(self).assignments() == old(self).assignments(),
    {
        proof {
            use_type_invariant(&*self);
        }
        let mut ev: Vec<SystemEvent> = Vec::new();
        std::mem::swap(&mut ev, &mut self.events);
        ev.push(event);
        self.events = ev;
    }

    /// Hands over the recorded events, oldest first, keeping none.
    pub fn drain_events(&mut self) -> (r: Vec<SystemEvent>)
        ensures
            r@ == old(self).events(),
            final(self).events() == Seq::<SystemEvent>::empty(),
            final(self).known() == old(self).known(),
            final(self).assignments() == old(self).assignments(),
    {
        proof {
            use_type_invariant(&*self);
        }
        let mut out: Vec<SystemEvent> = Vec::new();
        std::mem::swap(&mut out, &mut self.events);
        out
    }

    /// One hint for each idle worker (known, without an assignment), each
    /// worker once, in no promised order: under a strategy that hands out
    /// work, a task from its focus groups; while planning or winding down, a
    /// support check.
    pub fn orchestrator_hints(&self, strategy: &ActiveStrategy) -> (r: Vec<OrchestratorHint>)
        ensures
            forall|w: i64| (exists|j: int| 0 <= j < r@.len() && #[trigger] hint_worker(r@[j]) == w)
                <==> #[trigger] idle(self.known(), self.assignments()).contains(w),
            forall|a: int, b: int|
                0 <= a < b < r@.len() ==> hint_worker(#[trigger] r@[a]) != hint_worker(
                    #[trigger] r@[b],
                ),
            forall|j: int|
                0 <= j < r@.len() ==> hint_for(
                    strategy.id,
                    hint_worker(#[trigger] r@[j]),
                    focus_groups(
                        focus_view(strategy.focus),
                    ),
                    r@[j],
                ),
    {
        proof {
            use_type_invariant(&*self);
        }
        let ghost groups = focus_groups(
            focus_view(strategy.focus),
        );
        let ghost known = self.known_workers@;
        let mut out: Vec<OrchestratorHint> = Vec::new();
        let mut i: usize = 0;
        while i < self.known_workers.len()
            invariant
                i <= known.len(),
                known == self.known_workers@,
                known.no_duplicates(),
                distinct_keys(self.assignments@),
                groups == focus_groups(
                    focus_view(strategy.focus),
                ),
                forall|j: int|
                    0 <= j < out@.len() ==> hint_for(
                        strategy.id,
                        hint_worker(#[trigger] out@[j]),
                        groups,
                        out@[j],
                    ),
                forall|j: int|
                    0 <= j < out@.len() ==> (exists|k: int| 0 <= k < i && known[k] == hint_worker(
                        #[trigger] out@[j],
                    )) && !self.assignments().dom().contains(hint_worker(out@[j])),
                forall|k: int|
                    0 <= k < i && !self.assignments().dom().contains(#[trigger] known[k]) ==> exists|
                        j: int,
                    |
                        0 <= j < out@.len() && hint_worker(#[trigger] out@[j]) == known[k],
                forall|a: int, b: int|
                    0 <= a < b < out@.len() ==> hint_worker(#[trigger] out@[a]) != hint_worker(
                        #[trigger] out@[b],
                    ),
            decreases known.len() - i,
        {
            let w = self.known_workers[i];
            proof {
                lemma_assignment_map(self.assignments@, w);
            }
            if self.find_assignment(w).is_none() {
                let h = match strategy.id {
                    Strategy::Planning | Strategy::WindDown => OrchestratorHint::SendSupport {
                        to_worker: w,
                    },
                    _ => OrchestratorHint::AssignTask {
                        to_worker: w,
                        from_groups: focus_strings(&strategy.focus),
                    },
                };
                let ghost o0 = out@;
                out.push(h);
                assert forall|j: int| 0 <= j < out@.len() implies (exists|k: int|
                    0 <= k < i + 1 && known[k] == hint_worker(#[trigger] out@[j]))
                    && !self.assignments().dom().contains(hint_worker(out@[j])) by {
                    if j < o0.len() {
                        assert(out@[j] == o0[j]);
                    } else {
                        assert(known[i as int] == hint_worker(out@[j]));
                    }
                }
                assert forall|a: int, b: int| 0 <= a < b < out@.len() implies hint_worker(
                    #[trigger] out@[a],
                ) != hint_worker(#[trigger] out@[b]) by {
                    assert(out@[a] == o0[a]);
                    if b < o0.len() {
                        assert(out@[b] == o0[b]);
                    } else {
                        let k = choose|k: int| 0 <= k < i && known[k] == hint_worker(o0[a]);
                        assert(known[k] != known[i as int]);
                    }
                }
                assert forall|k: int|
                    0 <= k < i + 1 && !self.assignments().dom().contains(#[trigger] known[k]) implies exists|
                        j: int,
                    | 0 <= j < out@.len() && hint_worker(#[trigger] out@[j]) == known[k] by {
                    if k < i {
                        let j = choose|j: int| 0 <= j < o0.len() && hint_worker(o0[j]) == known[k];
                        assert(out@[j] == o0[j]);
                    } else {
                        assert(hint_worker(out@[o0.len() as int]) == known[k]);
                    }
                }
            }
            i = i + 1;
        }
        proof {
            let id = idle(self.known(), self.assignments());
            assert forall|w: i64| (exists|j: int| 0 <= j < out@.len() && #[trigger] hint_worker(out@[j]) == w)
                <==> #[trigger] id.contains(w) by {
                if exists|j: int| 0 <= j < out@.len() && hint_worker(out@[j]) == w {
                    let j = choose|j: int| 0 <= j < out@.len() && hint_worker(out@[j]) == w;
                    let k = choose|k: int| 0 <= k < i && known[k] == hint_worker(out@[j]);
                    assert(known.contains(w));
                }
                if id.contains(w) {
                    assert(known.contains(w));
                    let k = choose|k: int| 0 <= k < known.len() && known[k] == w;
                    assert(!self.assignments().dom().contains(known[k]));
                }
            }
        }
        out
    }

    /// Records each rendered hint as a strategy event from the system to
    /// the orchestrator, in order.
    pub fn record_assignment_hint(&mut self, rendered_hints: &Vec<String>)
        ensures
            final(self).events().len() == old(self).events().len() + rendered_hints@.len(),
            forall|i: int| 0 <= i < old(self).events().len() ==> final(self).events()[i] == old(self).events()[i],
            forall|i: int|
                0 <= i < rendered_hints@.len() ==> is_hint_event(
                    #[trigger] final(self).events()[old(self).events().len() + i],
                    rendered_hints@[i]@,
                ),
            final(self).known() == old(self).known(),
            final(self).assignments() == old(self).assignments(),
    {
        proof {
            use_type_invariant(&*self);
        }
        let ghost e0 = self.events@;
        let mut i: usize = 0;
        while i < rendered_hints.len()
            invariant
                i <= rendered_hints@.len(),
                self.events@.len() == e0.len() + i,
                forall|k: int| 0 <= k < e0.len() ==> self.events@[k] == e0[k],
                forall|k: int|
                    0 <= k < i ==> is_hint_event(
                        #[trigger] self.events@[e0.len() + k],
                        rendered_hints@[k]@,
                    ),
                known_workers_unchanged(self, old(self)),
            decreases rendered_hints@.len() - i,
        {
            let text = rendered_hints[i].as_str();
            let e = SystemEvent::new(
                FeedLevel::Info,
                SystemActor::System,
                SystemActor::Orchestrator,
                SystemEventCategory::Strategy,
                text,
                EventDetails::Hint(owned(text)),
            );
            self.record_event(e);
            i = i + 1;
        }
    }

    /// Records a message from `source` to `target`.
    pub fn user_message(&mut self, source: SystemActor, target: SystemActor, message: &str)
        ensures
            final(self).events().len() == old(self).events().len() + 1,
            final(self).events().drop_last() == old(self).events(),
            is_message_event(final(self).events().last(), source, target, message@),
            final(self).known() == old(self).known(),
            final(self).assignments() == old(self).assignments(),
    {
        proof {
            use_type_invariant(&*self);
        }
        let e = SystemEvent::new(
            FeedLevel::Info,
            source,
            target,
            SystemEventCategory::User,
            message,
            EventDetails::Message(owned(message)),
        );
        self.record_event(e);
        assert(self.events@.drop_last() =~= old(self).events@);
    }

    /// Records that a validation of `worker_id`'s work failed.
    pub fn validation_failed(&mut self, worker_id: i64, explanation: &str)
        ensures
            final(self).events().len() == old(self).events().len() + 1,
            final(self).events().drop_last() == old(self).events(),
            is_validation_event(final(self).events().last(), worker_id, explanation@),
            final(self).known() == old(self).known(),
            final(self).assignments() == old(self).assignments(),
    {
        proof {
            use_type_invariant(&*self);
        }
        let e = SystemEvent::new(
            FeedLevel::Warning,
            SystemActor::System,
            SystemActor::Worker(worker_id),
            SystemEventCategory::Validation,
            explanation,
            EventDetails::Validation { worker: worker_id, details: owned(explanation) },
        );
        self.record_event(e);
        assert(self.events@.drop_last() =~= old(self).events@);
    }
}

/// The known workers and assignments of `a` and `b` agree.
pub open spec fn known_workers_unchanged(a: &QueueCoordinator, b: &QueueCoordinator) -> bool {
    a.known() == b.known() && a.assignments() == b.assignments()
}

/// The focus groups of a strategy, as text.
pub(crate) fn focus_strings(focus: &Option<Vec<i64>>) -> (r: Vec<String>)
    ensures
        strings_view(r@) == focus_groups(
            focus_view(*focus),
        ),
{
    let mut out: Vec<String> = Vec::new();
    match focus {
        Some(f) => {
            let mut i: usize = 0;
            while i < f.len()
                invariant
                    i <= f@.len(),
                    strings_view(out@) =~= Seq::new(i as nat, |k: int| signed_decimal(f@[k] as int)),
                decreases f@.len() - i,
            {
                let ghost before = strings_view(out@);
                out.push(i64_to_string(f[i]));
                assert(strings_view(out@) =~= before.push(signed_decimal(f@[i as int] as int)));
                i = i + 1;
            }
        },
        None => {
            assert(strings_view(out@) =~= Seq::<Seq<char>>::empty());
        },
    }
    out
}

/// Clearing an assignment just made gives back the assignments as they
/// were, and the worker can then be assigned again.
pub proof fn lemma_assign_then_clear(m: Map<i64, AssignedView>, w: i64, v: AssignedView)
    requires
        !m.dom().contains(w),
    ensures
        m.insert(w, v).remove(w) == m,
        !m.insert(w, v).remove(w).dom().contains(w),
{
    assert(m.insert(w, v).remove(w) =~= m);
}

} // verus!
