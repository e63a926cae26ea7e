//! The queue manager's bookkeeping: whether the queue is paused, the
//! process intents held back while it is, which agents are running, and
//! where each queued message goes.

use vstd::prelude::*;

use crate::idmap::IdMap;
use crate::models::{ActiveStrategy, Strategy};
use crate::system::events::{actor_named, SystemActor};
use crate::system::queue::{focus_groups, focus_strings, focus_view, OrchestratorHint, QueueCoordinator};
use crate::text::strings_view;
use crate::text::{chars_of, push_str_chars, signed_decimal, string_of};

verus! {

/// The capacity of the queue manager's command channel.
pub struct QueueManagerConfig {
    pub command_buffer: usize,
}

impl Default for QueueManagerConfig {
    /// 64 commands.
    fn default() -> (r: Self)
        ensures
            r.command_buffer == 64,
    {
        QueueManagerConfig { command_buffer: 64 }
    }
}

/// Failures of queue manager requests.
#[derive(Debug)]
pub enum QueueManagerError {
    /// The database manager failed; its message.
    Database(String),
    ChannelClosed,
    ResponseDropped,
    MiddlewareSend(String),
    WorkerNotRunning(i64),
    OrchestratorNotRunning,
    Assignment(String),
}

/// Which agent a run belongs to.
#[derive(Debug, Clone, Copy, PartialEq, Eq, Structural)]
pub enum AgentRunActor {
    Worker(i64),
    Orchestrator,
}

/// Where a queued message goes.
#[derive(Debug, Clone, Copy, PartialEq, Eq, Structural)]
pub enum DispatchTarget {
    /// Start a turn of this idle worker.
    Worker(i64),
    /// Start a turn of the idle orchestrator.
    Orchestrator,
    /// Leave the message queued.
    Skip,
}

/// The queue manager's state: paused or not, the intents held back while
/// paused (oldest first), the running workers and their runs, and the
/// orchestrator's run.
pub struct QueueRuntimeState<T> {
    paused: bool,
    buffered: Vec<T>,
    active_workers: IdMap<()>,
    worker_runs: IdMap<u128>,
    orchestrator_run: Option<u128>,
}

impl<T> QueueRuntimeState<T> {
    /// Whether the queue is paused.
    pub closed spec fn is_paused(&self) -> bool {
        self.paused
    }

    /// The intents held back, oldest first.
    pub closed spec fn held(&self) -> Seq<T> {
        self.buffered@
    }

    /// The workers running a turn.
    pub closed spec fn active(&self) -> Set<i64> {
        self.active_workers.map().dom()
    }

    /// The run of each worker that has one.
    pub closed spec fn runs(&self) -> Map<i64, u128> {
        self.worker_runs.map()
    }

    /// The orchestrator's run, if it has one.
    pub closed spec fn orchestrator(&self) -> Option<u128> {
        self.orchestrator_run
    }

    /// The maps hold no key twice.
    #[verifier::type_invariant]
    spec fn wf(&self) -> bool {
        self.active_workers.wf() && self.worker_runs.wf()
    }

    /// The state at startup: paused, holding nothing, nothing running.
    pub fn new() -> (r: Self)
        ensures
            r.is_paused(),
            r.held() == Seq::<T>::empty(),
            r.active() == Set::<i64>::empty(),
            r.runs() == Map::<i64, u128>::empty(),
            r.orchestrator() is None,
    {
        let r = QueueRuntimeState {
            paused: true,
            buffered: Vec::new(),
            active_workers: IdMap::new(),
            worker_runs: IdMap::new(),
            orchestrator_run: None,
        };
        assert(r.active_workers.map().dom() =~= Set::<i64>::empty());
        r
    }

    /// Pauses the queue.
    pub fn pause(&mut self)
        ensures
            final(self).is_paused(),
            final(self).held() == old(self).held(),
            final(self).active() == old(self).active(),
            final(self).runs() == old(self).runs(),
            final(self).orchestrator() == old(self).orchestrator(),
    {
        proof {
            use_type_invariant(&*self);
        }
        self.paused = true;
    }

    /// Resumes the queue; the intents held back are then handed out by
    /// `pop_held`, oldest first.
    pub fn resume(&mut self)
        ensures
            !final(self).is_paused(),
            final(self).held() == old(self).held(),
            final(self).active() == old(self).active(),
            final(self).runs() == old(self).runs(),
            final(self).orchestrator() == old(self).orchestrator(),
    {
        proof {
            use_type_invariant(&*self);
        }
        self.paused = false;
    }

    /// The oldest intent held back, taken out of the queue.
    pub fn pop_held(&mut self) -> (r: Option<T>)
        ensures
            old(self).held().len() == 0 ==> r is None && final(self).held() == old(self).held(),
            old(self).held().len() > 0 ==> r == Some(old(self).held()[0]) && final(self).held()
                == old(self).held().drop_first(),
            final(self).is_paused() == old(self).is_paused(),
            final(self).active() == old(self).active(),
            final(self).runs() == old(self).runs(),
            final(self).orchestrator() == old(self).orchestrator(),
    {
        proof {
            use_type_invariant(&*self);
        }
        if self.buffered.len() == 0 {
            return None;
        }
        let mut held: Vec<T> = Vec::new();
        std::mem::swap(&mut held, &mut self.buffered);
        let x = held.remove(0);
        self.buffered = held;
        assert(self.buffered@ =~= old(self).buffered@.drop_first());
        Some(x)
    }

    /// Takes in a process intent: held back while paused (`None`), handed
    /// back to be sent on otherwise.
    pub fn enqueue_intent(&mut self, intent: T) -> (r: Option<T>)
        ensures
            old(self).is_paused() ==> r is None && final(self).held() == old(self).held().push(
                intent,
            ),
            !old(self).is_paused() ==> r == Some(intent) && final(self).held() == old(self).held(),
            final(self).is_paused() == old(self).is_paused(),
            final(self).active() == old(self).active(),
            final(self).runs() == old(self).runs(),
            final(self).orchestrator() == old(self).orchestrator(),
    {
        proof {
            use_type_invariant(&*self);
        }
        if self.paused {
            let mut held: Vec<T> = Vec::new();
            std::mem::swap(&mut held, &mut self.buffered);
            held.push(intent);
            self.buffered = held;
            None
        } else {
            Some(intent)
        }
    }

    /// The run to kill when the user stops worker `worker_id`.
    pub fn worker_run_to_kill(&self, worker_id: i64) -> (r: Result<u128, QueueManagerError>)
        ensures
            self.runs().dom().contains(worker_id) ==> r == Ok::<u128, QueueManagerError>(
                self.runs()[worker_id],
            ),
            !self.runs().dom().contains(worker_id) ==> (r matches Err(
                QueueManagerError::WorkerNotRunning(w),
            ) && w == worker_id),
    {
        proof {
            use_type_invariant(&*self);
        }
        match self.worker_runs.get(worker_id) {
            Some(run) => Ok(run),
            None => Err(QueueManagerError::WorkerNotRunning(worker_id)),
        }
    }

    /// The run to kill when the user stops the orchestrator.
    pub fn orchestrator_run_to_kill(&self) -> (r: Result<u128, QueueManagerError>)
        ensures
            match self.orchestrator() {
                Some(run) => r == Ok::<u128, QueueManagerError>(run),
                None => r matches Err(QueueManagerError::OrchestratorNotRunning),
            },
    {
        proof {
            use_type_invariant(&*self);
        }
        match self.orchestrator_run {
            Some(run) => Ok(run),
            None => Err(QueueManagerError::OrchestratorNotRunning),
        }
    }

    /// Notes that worker `worker_id` started the run `run_id`.
    pub fn worker_dispatched(&mut self, worker_id: i64, run_id: u128)
        ensures
            final(self).active() == old(self).active().insert(worker_id),
            final(self).runs() == old(self).runs().insert(worker_id, run_id),
            final(self).orchestrator() == old(self).orchestrator(),
            final(self).is_paused() == old(self).is_paused(),
            final(self).held() == old(self).held(),
    {
        proof {
            use_type_invariant(&*self);
        }
        let mut runs: IdMap<u128> = IdMap::new();
        std::mem::swap(&mut runs, &mut self.worker_runs);
        runs.insert(worker_id, run_id);
        self.worker_runs = runs;
        let mut active: IdMap<()> = IdMap::new();
        std::mem::swap(&mut active, &mut self.active_workers);
        active.insert(worker_id, ());
        self.active_workers = active;
        assert(self.active_workers.map().dom() =~= old(self).active_workers.map().dom().insert(
            worker_id,
        ));
    }

    /// Notes that the orchestrator started the run `run_id`.
    pub fn orchestrator_dispatched(&mut self, run_id: u128)
        ensures
            final(self).orchestrator() == Some(run_id),
            final(self).active() == old(self).active(),
            final(self).runs() == old(self).runs(),
            final(self).is_paused() == old(self).is_paused(),
            final(self).held() == old(self).held(),
    {
        proof {
            use_type_invariant(&*self);
        }
        self.orchestrator_run = Some(run_id);
    }

    /// Notes that `actor`'s run ended: a worker is no longer running and
    /// loses its assignment; the orchestrator no longer has a run.
    pub fn agent_completed(&mut self, actor: AgentRunActor, coordinator: &mut QueueCoordinator)
        requires
        ensures
            match actor {
                AgentRunActor::Worker(id) => {
                    &&& final(self).active() == old(self).active().remove(id)
                    &&& final(self).runs() == old(self).runs().remove(id)
                    &&& final(self).orchestrator() == old(self).orchestrator()
                    &&& final(coordinator).assignments() == old(coordinator).assignments().remove(id)
                },
                AgentRunActor::Orchestrator => {
                    &&& final(self).active() == old(self).active()
                    &&& final(self).runs() == old(self).runs()
                    &&& final(self).orchestrator() is None
                    &&& final(coordinator).assignments() == old(coordinator).assignments()
                },
            },
            final(coordinator).known() == old(coordinator).known(),
            final(coordinator).events() == old(coordinator).events(),
            final(self).is_paused() == old(self).is_paused(),
            final(self).held() == old(self).held(),
    {
        proof {
            use_type_invariant(&*self);
        }
        match actor {
            AgentRunActor::Worker(id) => {
                let mut active: IdMap<()> = IdMap::new();
                std::mem::swap(&mut active, &mut self.active_workers);
                active.remove(id);
                self.active_workers = active;
                let mut runs: IdMap<u128> = IdMap::new();
                std::mem::swap(&mut runs, &mut self.worker_runs);
                runs.remove(id);
                self.worker_runs = runs;
                coordinator.clear_assignment(id);
                assert(self.active_workers.map().dom() =~= old(self).active_workers.map().dom().remove(
                    id,
                ));
            },
            AgentRunActor::Orchestrator => {
                self.orchestrator_run = None;
            },
        }
    }

    /// Whether the queue is driven on this tick: only when not paused.
    pub fn should_drive(&self) -> (r: bool)
        ensures
            r == !self.is_paused(),
    {
        proof {
            use_type_invariant(&*self);
        }
        !self.paused
    }

    /// Where a queued message addressed to `to` goes: to its worker when
    /// that worker is idle, to the orchestrator when it is idle; otherwise
    /// (a busy agent, or an address naming no agent) it stays queued.
    pub fn dispatch_target(&self, to: &str) -> (r: DispatchTarget)
        ensures
            r == dispatch_for(actor_named(to@), self.active(), self.orchestrator()),
    {
        proof {
            use_type_invariant(&*self);
        }
        match SystemActor::from_label(to) {
            Some(SystemActor::Worker(id)) => {
                if self.active_workers.contains_key(id) {
                    DispatchTarget::Skip
                } else {
                    DispatchTarget::Worker(id)
                }
            },
            Some(SystemActor::Orchestrator) => {
                if self.orchestrator_run.is_some() {
                    DispatchTarget::Skip
                } else {
                    DispatchTarget::Orchestrator
                }
            },
            _ => DispatchTarget::Skip,
        }
    }
}

/// Where a message addressed to `to` goes, given the running workers and
/// the orchestrator's run.
pub open spec fn dispatch_for(
    to: Option<SystemActor>,
    active: Set<i64>,
    orchestrator: Option<u128>,
) -> DispatchTarget {
    match to {
        Some(SystemActor::Worker(id)) => if active.contains(id) {
            DispatchTarget::Skip
        } else {
            DispatchTarget::Worker(id)
        },
        Some(SystemActor::Orchestrator) => if orchestrator is Some {
            DispatchTarget::Skip
        } else {
            DispatchTarget::Orchestrator
        },
        _ => DispatchTarget::Skip,
    }
}

/// Whether a strategy hands work out (every strategy but planning and
/// winding down).
pub open spec fn seeds_assignments(strategy: Strategy) -> bool {
    !(strategy == Strategy::Planning || strategy == Strategy::WindDown)
}

/// Whether idle workers are offered tasks under `strategy`.
pub fn should_seed_assignments(strategy: &Strategy) -> (r: bool)
    ensures
        r == seeds_assignments(*strategy),
{
    !matches!(strategy, Strategy::Planning | Strategy::WindDown)
}

/// Whether `h` offers `worker` a task from exactly the groups `groups`.
pub open spec fn offers_task(h: OrchestratorHint, worker: i64, groups: Seq<Seq<char>>) -> bool {
    match h {
        OrchestratorHint::AssignTask { to_worker, from_groups } => {
            to_worker == worker && strings_view(from_groups@) == groups
        },
        OrchestratorHint::SendSupport { .. } => false,
    }
}

/// The hints recorded when worker `worker_id` sends a status update: a
/// support check and, under a strategy that seeds assignments, a task from
/// the strategy's focus groups.
pub fn support_hints(worker_id: i64, strategy: &ActiveStrategy) -> (r: Vec<OrchestratorHint>)
    ensures
        r@.len() >= 1,
        r@[0] == (OrchestratorHint::SendSupport { to_worker: worker_id }),
        !seeds_assignments(strategy.id) ==> r@.len() == 1,
        seeds_assignments(strategy.id) ==> r@.len() == 2,
        seeds_assignments(strategy.id) ==> offers_task(
            r@[1],
            worker_id,
            focus_groups(focus_view(strategy.focus)),
        ),
{
    let mut hints: Vec<OrchestratorHint> = Vec::new();
    hints.push(OrchestratorHint::SendSupport { to_worker: worker_id });
    if should_seed_assignments(&strategy.id) {
        hints.push(
            OrchestratorHint::AssignTask {
                to_worker: worker_id,
                from_groups: focus_strings(&strategy.focus),
            },
        );
    }
    hints
}


/// The worker a target names: `ws<id>` after trimming, in any ASCII case.
pub open spec fn worker_target(target: Seq<char>) -> Option<int> {
    match crate::split::strip_prefix(crate::text::lower_seq(crate::text::trim(target)), "ws"@) {
        Some(rest) => crate::text::parse_signed64(rest),
        None => None,
    }
}

/// The worker a turn's target names.
pub fn parse_worker_target(target: &str) -> (r: Option<i64>)
    ensures
        match r {
            Some(id) => worker_target(target@) == Some(id as int),
            None => worker_target(target@) is None,
        },
{
    let lowered = crate::text::lower_chars(&crate::text::trim_chars(&chars_of(target)));
    match crate::split::strip_prefix_chars(&lowered, &chars_of("ws")) {
        Some(rest) => crate::text::parse_i64(&rest),
        None => None,
    }
}

/// The worktree of worker `worker_id` under the project directory.
pub fn worker_worktree_path(project_dir: &str, worker_id: i64) -> (r: String)
    ensures
        r@ == crate::paths::join(project_dir@, "ws"@ + signed_decimal(worker_id as int)),
{
    let mut name = chars_of("ws");
    push_str_chars(&mut name, crate::text::i64_to_string(worker_id).as_str());
    crate::paths::join_str(project_dir, string_of(&name).as_str())
}

/// The staging worktree under the project directory.
pub fn staging_path(project_dir: &str) -> (r: String)
    ensures
        r@ == crate::paths::join(project_dir@, "staging"@),
{
    crate::paths::join_str(project_dir, "staging")
}

/// A worker's name, as the orchestrator writes it in a turn's target,
/// names that worker again.
pub proof fn lemma_worker_target_roundtrip(worker_id: i64)
    ensures
        worker_target("ws"@ + signed_decimal(worker_id as int)) == Some(worker_id as int),
{
    reveal_strlit("ws");
    let d = signed_decimal(worker_id as int);
    let l = "ws"@ + d;
    let m: nat = if worker_id < 0 { (-worker_id) as nat } else { worker_id as nat };
    crate::text::lemma_decimal_digits(m);
    crate::text::lemma_parse_signed_decimal(worker_id as int);
    assert(crate::text::trim(l) == l) by {
        assert(l[0] == 'w');
        assert(l.last() == d.last());
        assert(crate::text::is_digit(crate::text::decimal(m).last()));
        crate::text::lemma_trim_no_ws(l);
    }
    assert(crate::text::lower_seq(l) =~= l) by {
        assert forall|i: int| 0 <= i < l.len() implies crate::text::lower(l[i]) == l[i] by {
            if i >= 2 {
                assert(l[i] == d[i - 2]);
                if !(worker_id < 0 && i == 2) {
                    let k = if worker_id < 0 { i - 3 } else { i - 2 };
                    assert(crate::text::is_digit(crate::text::decimal(m)[k]));
                }
            }
        }
    }
    assert(l.take(2) =~= "ws"@);
    assert(l.skip(2) =~= d);
}

/// The task slug of an orchestrator's assignment, trimmed; none when
/// blank (the assignment is then ignored).
pub fn assignment_slug(task_slug: &str) -> (r: Option<String>)
    ensures
        match r {
            Some(s) => crate::text::trim(task_slug@).len() > 0 && s@ == crate::text::trim(task_slug@),
            None => crate::text::trim(task_slug@).len() == 0,
        },
{
    let t = crate::text::trim_chars(&chars_of(task_slug));
    if t.len() == 0 {
        None
    } else {
        Some(string_of(&t))
    }
}

/// Whether a task is still the orchestrator's to hand out: its owner is
/// `orchestrator`, trimmed and in any ASCII case.
pub open spec fn owned_by_orchestrator(owner: Seq<char>) -> bool {
    crate::text::lower_seq(crate::text::trim(owner)) == "orchestrator"@
}

/// Whether a task is still the orchestrator's to hand out.
pub fn is_orchestrator_owned(owner: &str) -> (r: bool)
    ensures
        r == owned_by_orchestrator(owner@),
{
    let t = crate::text::trim_chars(&chars_of(owner));
    let o = chars_of("orchestrator");
    proof {
        reveal_strlit("orchestrator");
        assert(crate::text::lower_seq("orchestrator"@) =~= "orchestrator"@);
    }
    crate::text::eq_ignore_case(&t, &o)
}

} // verus!
