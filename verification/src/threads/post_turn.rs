//! What happens around a worker's finished turn and the runs it starts:
//! the metadata of runs, how their output is captured, the feed entries
//! recorded, and how a failed post-turn step is explained to the worker.

use vstd::prelude::*;

use crate::models::FeedLevel;
use crate::shared::git::{command_failure_message, MergeConflict};
use crate::system::events::{actor_label, category_label, SystemEvent};
use crate::text::{
    chars_of, contains, contains_seq, i64_to_string, joined, join_strings, owned, push_str_chars,
    push_string, signed_decimal, string_of, strings_view, trim, trim_chars, contains_string,
    decimal, push_decimal,
};
use crate::system::queue::{is_validation_event, QueueCoordinator};
use crate::threads::messages::{
    completion_message, format_completion_message, opt_text, worker_name, worker_name_exec,
};
use crate::threads::process_manager::ChildEnd;

verus! {

// ---------------------------------------------------------------------------
// Runs
// ---------------------------------------------------------------------------

/// The persona of a worker's run: `worker:ws<id>`.
pub open spec fn worker_run_persona(worker_id: i64) -> Seq<char> {
    "worker:"@ + worker_name(worker_id)
}

/// The tags of a worker's run: `worker:<id>`.
pub open spec fn worker_run_tags(worker_id: i64) -> Seq<Seq<char>> {
    seq!["worker:"@ + signed_decimal(worker_id as int)]
}

/// The persona and tags of a worker's run.
pub fn worker_run_labels(worker_id: i64) -> (r: (String, Vec<String>))
    ensures
        r.0@ == worker_run_persona(worker_id),
        strings_view(r.1@) == worker_run_tags(worker_id),
{
    let id = i64_to_string(worker_id);
    let mut persona = chars_of("worker:ws");
    push_str_chars(&mut persona, id.as_str());
    let mut tag = chars_of("worker:");
    push_str_chars(&mut tag, id.as_str());
    let mut tags: Vec<String> = Vec::new();
    push_string(&mut tags, string_of(&tag));
    assert(strings_view(tags@) =~= worker_run_tags(worker_id));
    proof {
        reveal_strlit("worker:ws");
        reveal_strlit("worker:");
        reveal_strlit("ws");
        assert(persona@ =~= worker_run_persona(worker_id));
    }
    (string_of(&persona), tags)
}

/// The persona of a post-turn check's run: `post_turn_check:<check>`.
pub open spec fn check_run_persona(check_id: Seq<char>) -> Seq<char> {
    "post_turn_check:"@ + check_id
}

/// The tags of a post-turn check's run for worker `worker_id`.
pub open spec fn check_run_tags(worker_id: i64, check_id: Seq<char>) -> Seq<Seq<char>> {
    seq!["post_turn_check"@, "worker:"@ + signed_decimal(worker_id as int), "check:"@ + check_id]
}

/// The persona and tags of a post-turn check's run.
pub fn check_run_labels(worker_id: i64, check_id: &str) -> (r: (String, Vec<String>))
    ensures
        r.0@ == check_run_persona(check_id@),
        strings_view(r.1@) == check_run_tags(worker_id, check_id@),
{
    let mut persona = chars_of("post_turn_check:");
    push_str_chars(&mut persona, check_id);
    let mut worker = chars_of("worker:");
    push_str_chars(&mut worker, i64_to_string(worker_id).as_str());
    let mut check = chars_of("check:");
    push_str_chars(&mut check, check_id);
    let mut tags: Vec<String> = Vec::new();
    push_string(&mut tags, owned("post_turn_check"));
    push_string(&mut tags, string_of(&worker));
    push_string(&mut tags, string_of(&check));
    assert(strings_view(tags@) =~= check_run_tags(worker_id, check_id@));
    (string_of(&persona), tags)
}

/// The program and arguments of a run planned as `docker_args` followed by
/// `codex_args`: the first Docker argument is the program; none when there
/// is no Docker argument.
pub fn split_program(docker_args: &Vec<String>, codex_args: &Vec<String>) -> (r: Option<(String, Vec<String>)>)
    ensures
        docker_args@.len() == 0 ==> r is None,
        docker_args@.len() > 0 ==> (r matches Some((p, a)) && p@ == docker_args@[0]@
            && strings_view(a@) == strings_view(docker_args@).drop_first() + strings_view(
            codex_args@,
        )),
{
    if docker_args.len() == 0 {
        return None;
    }
    let program = owned(docker_args[0].as_str());
    let mut args: Vec<String> = Vec::new();
    let mut i: usize = 1;
    let ghost d = strings_view(docker_args@);
    while i < docker_args.len()
        invariant
            1 <= i <= docker_args@.len(),
            d == strings_view(docker_args@),
            strings_view(args@) =~= d.subrange(1, i as int),
        decreases docker_args@.len() - i,
    {
        let ghost before = strings_view(args@);
        push_string(&mut args, owned(docker_args[i].as_str()));
        assert(strings_view(args@) =~= before.push(d[i as int]));
        i = i + 1;
    }
    let ghost mid = strings_view(args@);
    crate::text::extend_strings(&mut args, crate::text::clone_strings(codex_args));
    assert(d.subrange(1, d.len() as int) =~= d.drop_first());
    Some((program, args))
}

/// At most this many bytes of each output stream of an agent run are kept.
pub const MAX_CAPTURE: usize = 8192;

/// The captured bytes after a chunk arrives: the chunk's bytes up to the
/// capture limit.
pub open spec fn captured(target: Seq<u8>, chunk: Seq<u8>) -> Seq<u8> {
    if target.len() < MAX_CAPTURE {
        let take = if MAX_CAPTURE - target.len() < chunk.len() {
            MAX_CAPTURE - target.len()
        } else {
            chunk.len() as int
        };
        target + chunk.take(take)
    } else {
        target
    }
}

/// Keeps a chunk of an agent run's output, up to the capture limit.
pub fn capture_output(target: &mut Vec<u8>, chunk: &[u8])
    ensures
        final(target)@ == captured(old(target)@, chunk@),
{
    if target.len() < MAX_CAPTURE {
        let remaining = MAX_CAPTURE - target.len();
        let take = if remaining < chunk.len() {
            remaining
        } else {
            chunk.len()
        };
        let part = crate::bytes::slice_bytes(chunk, 0, take);
        assert(part@ =~= chunk@.take(take as int));
        crate::bytes::extend_bytes(target, part.as_slice());
    }
}

// ---------------------------------------------------------------------------
// Feed entries
// ---------------------------------------------------------------------------

/// An entry for the feed.
#[derive(Debug, Clone)]
pub struct NewFeedEntry {
    pub source: String,
    pub target: String,
    pub level: FeedLevel,
    pub text: String,
    pub raw: String,
    pub category: String,
}

/// The feed entry of a system event whose details serialize to `raw`.
pub fn event_to_feed_entry(event: &SystemEvent, raw: String) -> (r: NewFeedEntry)
    ensures
        r.source@ == actor_label(event.source),
        r.target@ == actor_label(event.target),
        r.level == event.level,
        r.text@ == event.summary@,
        r.raw@ == raw@,
        r.category@ == category_label(event.category),
{
    NewFeedEntry {
        source: event.source.label(),
        target: event.target.label(),
        level: event.level,
        text: owned(event.summary.as_str()),
        raw,
        category: owned(event.category.as_str()),
    }
}

/// The feed entry of what worker `worker_id` said: from and to the worker,
/// in category `category` (`worker` when absent).
pub fn worker_feed_entry(worker_id: i64, message: &str, raw: &str, category: Option<&str>) -> (r: NewFeedEntry)
    ensures
        r.source@ == worker_name(worker_id),
        r.target@ == worker_name(worker_id),
        r.level == FeedLevel::Info,
        r.text@ == message@,
        r.raw@ == raw@,
        r.category@ == (match category {
            Some(c) => c@,
            None => "worker"@,
        }),
{
    let mut name = chars_of("ws");
    push_str_chars(&mut name, i64_to_string(worker_id).as_str());
    NewFeedEntry {
        source: string_of(&name),
        target: string_of(&name),
        level: FeedLevel::Info,
        text: owned(message),
        raw: owned(raw),
        category: match category {
            Some(c) => owned(c),
            None => owned("worker"),
        },
    }
}

/// The feed entry of what the orchestrator said: from and to
/// `Orchestrator`, in category `category` (`orchestrator` when absent).
pub fn orchestrator_feed_entry(message: &str, raw: &str, category: Option<&str>) -> (r: NewFeedEntry)
    ensures
        r.source@ == "Orchestrator"@,
        r.target@ == "Orchestrator"@,
        r.level == FeedLevel::Info,
        r.text@ == message@,
        r.raw@ == raw@,
        r.category@ == (match category {
            Some(c) => c@,
            None => "orchestrator"@,
        }),
{
    NewFeedEntry {
        source: owned("Orchestrator"),
        target: owned("Orchestrator"),
        level: FeedLevel::Info,
        text: owned(message),
        raw: owned(raw),
        category: match category {
            Some(c) => owned(c),
            None => owned("orchestrator"),
        },
    }
}

// ---------------------------------------------------------------------------
// Failed post-turn steps
// ---------------------------------------------------------------------------

/// Why the steps after a worker's turn (checks, commit, merge) failed.
#[derive(Debug)]
pub enum PostTurnError {
    CheckFailed { id: String, stdout: String, stderr: String, exit_code: Option<i32> },
    UnknownCheck(String),
    InvalidCommand(String),
    InvalidWorkingDir(String),
    Spawn(String),
    HandleDropped,
    ProcessTerminated,
    MissingWorktree(String),
    /// A git command failed; the git error's message.
    Git(String),
    NothingToCommit,
    MergeConflict(Vec<MergeConflict>),
}

/// An exit code as `{:?}` shows it: `Some(<code>)` or `None`.
pub open spec fn exit_code_text(code: Option<i32>) -> Seq<char> {
    match code {
        Some(c) => "Some("@ + signed_decimal(c as int) + ")"@,
        None => "None"@,
    }
}

/// Appends an exit code as `{:?}` shows it.
pub(crate) fn push_exit_code(v: &mut Vec<char>, code: Option<i32>)
    ensures
        final(v)@ == old(v)@ + exit_code_text(code),
{
    match code {
        Some(c) => {
            push_str_chars(v, "Some(");
            push_str_chars(v, i64_to_string(c as i64).as_str());
            push_str_chars(v, ")");
        },
        None => push_str_chars(v, "None"),
    }
}

/// A captured stream shown after `label` when not blank.
pub open spec fn stream_section(label: Seq<char>, text: Seq<char>) -> Seq<char> {
    if trim(text).len() > 0 {
        label + trim(text)
    } else {
        Seq::empty()
    }
}

/// The files of the conflicts, in order.
pub open spec fn conflict_files(v: Seq<MergeConflict>) -> Seq<Seq<char>> {
    Seq::new(v.len(), |i: int| v[i].file@)
}

/// The message telling worker `worker_id` why its turn could not be
/// finalized.
pub open spec fn rendered(e: PostTurnError, worker_id: i64) -> Seq<char> {
    match e {
        PostTurnError::CheckFailed { id, stdout, stderr, exit_code } => "Post-turn check '"@ + id@
            + "' failed for "@ + worker_name(worker_id) + " (exit "@ + exit_code_text(exit_code)
            + ")."@ + stream_section("\nstdout:\n"@, stdout@) + stream_section(
            "\nstderr:\n"@,
            stderr@,
        ),
        PostTurnError::UnknownCheck(id) => "Configured post-turn check '"@ + id@
            + "' no longer exists. Please update config."@,
        PostTurnError::InvalidCommand(id) => "Post-turn check '"@ + id@
            + "' has no executable command configured."@,
        PostTurnError::InvalidWorkingDir(dir) => "Post-turn check working directory is invalid: "@
            + dir@,
        PostTurnError::Spawn(err) => "Failed to spawn post-turn check: "@ + err@,
        PostTurnError::HandleDropped => "Failed to start post-turn check (handle dropped)."@,
        PostTurnError::ProcessTerminated => "A post-turn command terminated unexpectedly."@,
        PostTurnError::MissingWorktree(path) => "Worker worktree "@ + path@
            + " is missing; cannot finalize turn."@,
        PostTurnError::Git(err) => "Git operation failed: "@ + err@,
        PostTurnError::NothingToCommit => "No changes were detected to commit; ensure edits were saved."@,
        PostTurnError::MergeConflict(conflicts) => "Merge conflict while syncing "@ + worker_name(
            worker_id,
        ) + ". Conflicting files: "@ + joined(conflict_files(conflicts@), ", "@),
    }
}

fn push_stream(v: &mut Vec<char>, label: &str, text: &str)
    ensures
        final(v)@ == old(v)@ + stream_section(label@, text@),
{
    let t = trim_chars(&chars_of(text));
    if t.len() > 0 {
        push_str_chars(v, label);
        crate::text::push_all(v, &t);
    } else {
        assert(old(v)@ + stream_section(label@, text@) =~= old(v)@);
    }
}

impl PostTurnError {
    /// The message telling worker `worker_id` why its turn could not be
    /// finalized.
    pub fn render(&self, worker_id: i64) -> (r: String)
        ensures
            r@ == rendered(*self, worker_id),
    {
        let mut v: Vec<char> = Vec::new();
        match self {
            PostTurnError::CheckFailed { id, stdout, stderr, exit_code } => {
                push_str_chars(&mut v, "Post-turn check '");
                push_str_chars(&mut v, id.as_str());
                push_str_chars(&mut v, "' failed for ws");
                push_str_chars(&mut v, i64_to_string(worker_id).as_str());
                push_str_chars(&mut v, " (exit ");
                match exit_code {
                    Some(c) => {
                        push_str_chars(&mut v, "Some(");
                        push_str_chars(&mut v, i64_to_string(*c as i64).as_str());
                        push_str_chars(&mut v, ")");
                    },
                    None => push_str_chars(&mut v, "None"),
                }
                push_str_chars(&mut v, ").");
                push_stream(&mut v, "\nstdout:\n", stdout.as_str());
                push_stream(&mut v, "\nstderr:\n", stderr.as_str());
                proof {
                    reveal_strlit("' failed for ws");
                    reveal_strlit("' failed for ");
                    reveal_strlit("ws");
                }
            },
            PostTurnError::UnknownCheck(id) => {
                push_str_chars(&mut v, "Configured post-turn check '");
                push_str_chars(&mut v, id.as_str());
                push_str_chars(&mut v, "' no longer exists. Please update config.");
            },
            PostTurnError::InvalidCommand(id) => {
                push_str_chars(&mut v, "Post-turn check '");
                push_str_chars(&mut v, id.as_str());
                push_str_chars(&mut v, "' has no executable command configured.");
            },
            PostTurnError::InvalidWorkingDir(dir) => {
                push_str_chars(&mut v, "Post-turn check working directory is invalid: ");
                push_str_chars(&mut v, dir.as_str());
            },
            PostTurnError::Spawn(err) => {
                push_str_chars(&mut v, "Failed to spawn post-turn check: ");
                push_str_chars(&mut v, err.as_str());
            },
            PostTurnError::HandleDropped => {
                push_str_chars(&mut v, "Failed to start post-turn check (handle dropped).");
            },
            PostTurnError::ProcessTerminated => {
                push_str_chars(&mut v, "A post-turn command terminated unexpectedly.");
            },
            PostTurnError::MissingWorktree(path) => {
                push_str_chars(&mut v, "Worker worktree ");
                push_str_chars(&mut v, path.as_str());
                push_str_chars(&mut v, " is missing; cannot finalize turn.");
            },
            PostTurnError::Git(err) => {
                push_str_chars(&mut v, "Git operation failed: ");
                push_str_chars(&mut v, err.as_str());
            },
            PostTurnError::NothingToCommit => {
                push_str_chars(
                    &mut v,
                    "No changes were detected to commit; ensure edits were saved.",
                );
            },
            PostTurnError::MergeConflict(conflicts) => {
                let mut files: Vec<String> = Vec::new();
                let mut i: usize = 0;
                while i < conflicts.len()
                    invariant
                        i <= conflicts@.len(),
                        strings_view(files@) =~= conflict_files(conflicts@).take(i as int),
                    decreases conflicts@.len() - i,
                {
                    let ghost before = strings_view(files@);
                    push_string(&mut files, owned(conflicts[i].file.as_str()));
                    assert(strings_view(files@) =~= before.push(conflict_files(conflicts@)[i as int]));
                    i = i + 1;
                }
                assert(conflict_files(conflicts@).take(i as int) =~= conflict_files(conflicts@));
                push_str_chars(&mut v, "Merge conflict while syncing ws");
                push_str_chars(&mut v, i64_to_string(worker_id).as_str());
                push_str_chars(&mut v, ". Conflicting files: ");
                push_str_chars(&mut v, join_strings(&files, ", ").as_str());
                proof {
                    reveal_strlit("Merge conflict while syncing ws");
                    reveal_strlit("Merge conflict while syncing ");
                    reveal_strlit("ws");
                }
            },
        }
        string_of(&v)
    }
}

/// Why committing a worker's changes failed, from the standard error of the
/// failed `git commit`: nothing to commit, or the git failure.
pub fn commit_failure(stderr: &str) -> (r: PostTurnError)
    ensures
        contains_seq(stderr@, "nothing to commit"@) ==> r matches PostTurnError::NothingToCommit,
        !contains_seq(stderr@, "nothing to commit"@) ==> (r matches PostTurnError::Git(m) && m@
            == command_failure_message(stderr@)),
{
    if contains(&chars_of(stderr), &chars_of("nothing to commit")) {
        PostTurnError::NothingToCommit
    } else {
        let mut v = chars_of("git command exited with error: ");
        push_str_chars(&mut v, stderr);
        PostTurnError::Git(string_of(&v))
    }
}


/// The process manager recognizes the worker of a run the queue manager
/// starts for it, from its tags.
pub proof fn lemma_worker_run_identified(worker_id: i64)
    ensures
        crate::threads::process_manager::run_worker_id(
            worker_run_tags(worker_id),
            worker_run_persona(worker_id),
        ) == Some(worker_id as int),
{
    lemma_worker_tag(worker_id);
    let tags = worker_run_tags(worker_id);
    assert(tags.drop_first() =~= Seq::<Seq<char>>::empty());
}

/// The process manager recognizes the worker of a post-turn check run.
pub proof fn lemma_check_run_identified(worker_id: i64, check_id: Seq<char>)
    ensures
        crate::threads::process_manager::run_worker_id(
            check_run_tags(worker_id, check_id),
            check_run_persona(check_id),
        ) == Some(worker_id as int),
{
    reveal_strlit("post_turn_check");
    reveal_strlit("worker:");
    lemma_worker_tag(worker_id);
    let tags = check_run_tags(worker_id, check_id);
    assert(!crate::text::has_prefix("post_turn_check"@, "worker:"@)) by {
        assert("post_turn_check"@[0] != "worker:"@[0]);
    }
    assert(tags.drop_first()[0] == tags[1]);
    assert(crate::threads::process_manager::tag_worker_id(tags.drop_first()) == Some(
        worker_id as int,
    ));
    assert(crate::split::strip_prefix(tags[0], "worker:"@) is None);
    assert(crate::threads::process_manager::tag_worker_id(tags) == Some(worker_id as int));
}

proof fn lemma_worker_tag(worker_id: i64)
    ensures
        crate::split::strip_prefix("worker:"@ + signed_decimal(worker_id as int), "worker:"@)
            == Some(signed_decimal(worker_id as int)),
        crate::text::parse_signed64(signed_decimal(worker_id as int)) == Some(worker_id as int),
{
    reveal_strlit("worker:");
    let t = "worker:"@ + signed_decimal(worker_id as int);
    assert(t.take(7) =~= "worker:"@);
    assert(t.skip(7) =~= signed_decimal(worker_id as int));
    crate::text::lemma_parse_signed_decimal(worker_id as int);
}


/// Whether a post-turn command succeeded: it exited with code 0.
pub fn run_succeeded(exit_code: Option<i32>) -> (r: bool)
    ensures
        r == (exit_code == Some(0i32)),
{
    match exit_code {
        Some(c) => c == 0,
        None => false,
    }
}

/// The program and arguments of the post-turn check `check_id` whose
/// command line is `exec`; refused when the command line is empty.
pub fn check_program(check_id: &str, exec: &Vec<String>) -> (r: Result<(String, Vec<String>), PostTurnError>)
    ensures
        exec@.len() == 0 ==> (r matches Err(PostTurnError::InvalidCommand(id)) && id@ == check_id@),
        exec@.len() > 0 ==> (r matches Ok((p, a)) && p@ == exec@[0]@ && strings_view(a@)
            == strings_view(exec@).drop_first()),
{
    let empty: Vec<String> = Vec::new();
    match split_program(exec, &empty) {
        Some((p, a)) => {
            assert(strings_view(empty@) =~= Seq::<Seq<char>>::empty());
            assert(strings_view(exec@).drop_first() + Seq::<Seq<char>>::empty() =~= strings_view(exec@).drop_first());
            Ok((p, a))
        },
        None => Err(PostTurnError::InvalidCommand(owned(check_id))),
    }
}

/// The outcome of a post-turn check that ran: nothing when it succeeded,
/// otherwise the failure with its output and exit code.
pub fn check_outcome(check_id: &str, exit_code: Option<i32>, stdout: String, stderr: String) -> (r: Option<PostTurnError>)
    ensures
        exit_code == Some(0i32) ==> r is None,
        exit_code != Some(0i32) ==> (r matches Some(PostTurnError::CheckFailed { id, stdout: o, stderr: e, exit_code: c })
            && id@ == check_id@ && o@ == stdout@ && e@ == stderr@ && c == exit_code),
{
    if run_succeeded(exit_code) {
        None
    } else {
        Some(PostTurnError::CheckFailed { id: owned(check_id), stdout, stderr, exit_code })
    }
}

/// What a post-turn check's run gave: its exit code when it exited on its
/// own; a check that was killed or could not be waited for fails the turn.
pub fn check_run_end<K>(end: ChildEnd<K>) -> (r: Result<Option<i32>, PostTurnError>)
    ensures
        match end {
            ChildEnd::Exited(code) => r == Ok::<Option<i32>, PostTurnError>(code),
            ChildEnd::Killed(_) => r == Err::<Option<i32>, PostTurnError>(
                PostTurnError::ProcessTerminated,
            ),
            ChildEnd::WaitFailed(m) => r == Err::<Option<i32>, PostTurnError>(
                PostTurnError::Spawn(m),
            ),
        },
{
    match end {
        ChildEnd::Exited(code) => Ok(code),
        ChildEnd::Killed(_) => Err(PostTurnError::ProcessTerminated),
        ChildEnd::WaitFailed(m) => Err(PostTurnError::Spawn(m)),
    }
}

/// What to do next while running the post-turn checks of a turn.
#[derive(Debug)]
pub enum CheckStep {
    /// Run the check at this index of the plan.
    Run(usize),
    /// The checks are over, with this result.
    Finished(Result<(), PostTurnError>),
}

/// The next step of running the checks `plan` in order, of which the first
/// `done` passed, with `failure` the failure of the check run last, if it
/// failed. The first failure ends the run; so does a check that is not
/// among the registered ones (`known`); when every check passed (or there
/// are none) the run ends with success; otherwise the next check runs.
pub fn next_check_step(
    plan: &Vec<String>,
    known: &Vec<String>,
    done: usize,
    failure: Option<PostTurnError>,
) -> (r: CheckStep)
    ensures
        match failure {
            Some(e) => r == CheckStep::Finished(Err(e)),
            None => if done >= plan@.len() {
                r == CheckStep::Finished(Ok(()))
            } else if !strings_view(known@).contains(plan@[done as int]@) {
                (r matches CheckStep::Finished(Err(PostTurnError::UnknownCheck(id))) && id@
                    == plan@[done as int]@)
            } else {
                r == CheckStep::Run(done)
            },
        },
{
    match failure {
        Some(e) => CheckStep::Finished(Err(e)),
        None => {
            if done >= plan.len() {
                CheckStep::Finished(Ok(()))
            } else if !contains_string(known, plan[done].as_str()) {
                CheckStep::Finished(Err(PostTurnError::UnknownCheck(owned(plan[done].as_str()))))
            } else {
                CheckStep::Run(done)
            }
        },
    }
}

/// Who is told how a worker's finished turn went, and what.
#[derive(Debug)]
pub enum PostTurnNotice {
    /// The turn was finalized: the orchestrator learns that the task is
    /// done (and the worker's session is then cleared).
    ToOrchestrator(String),
    /// A check or the merge failed: the worker is told why.
    ToWorker(String),
}

/// The notice for worker `worker_id`'s turn on `task_slug`, with the
/// worker's notes, given how finalizing it went.
pub fn post_turn_notice(
    worker_id: i64,
    task_slug: &str,
    notes: Option<&str>,
    result: &Result<(), PostTurnError>,
) -> (r: PostTurnNotice)
    ensures
        match result {
            Ok(_) => (r matches PostTurnNotice::ToOrchestrator(m) && m@ == completion_message(
                worker_id,
                task_slug@,
                opt_text(notes),
            )),
            Err(e) => (r matches PostTurnNotice::ToWorker(m) && m@ == rendered(*e, worker_id)),
        },
{
    match result {
        Ok(_) => PostTurnNotice::ToOrchestrator(format_completion_message(worker_id, task_slug, notes)),
        Err(e) => PostTurnNotice::ToWorker(e.render(worker_id)),
    }
}

/// What follows a worker's finished turn: the notice, sent by the system,
/// and the session to clear, if any.
#[derive(Debug)]
pub struct PostTurnActions {
    pub notice: PostTurnNotice,
    /// The owner whose Codex session is deleted.
    pub clear_session: Option<String>,
}

/// Ends worker `worker_id`'s turn on `task_slug`, given how finalizing it
/// went. On success the orchestrator is told that the task is done and the
/// session of `ws<id>` is cleared; nothing is recorded. On failure the
/// worker is told why, a validation event with that explanation is
/// recorded for it, and no session is cleared.
pub fn finish_post_turn(
    coordinator: &mut QueueCoordinator,
    worker_id: i64,
    task_slug: &str,
    notes: Option<&str>,
    result: &Result<(), PostTurnError>,
) -> (r: PostTurnActions)
    ensures
        final(coordinator).known() == old(coordinator).known(),
        final(coordinator).assignments() == old(coordinator).assignments(),
        match result {
            Ok(_) => {
                &&& (r.notice matches PostTurnNotice::ToOrchestrator(m) && m@ == completion_message(
                    worker_id,
                    task_slug@,
                    opt_text(notes),
                ))
                &&& (r.clear_session matches Some(owner) && owner@ == worker_name(worker_id))
                &&& final(coordinator).events() == old(coordinator).events()
            },
            Err(e) => {
                &&& (r.notice matches PostTurnNotice::ToWorker(m) && m@ == rendered(*e, worker_id))
                &&& r.clear_session is None
                &&& final(coordinator).events().len() == old(coordinator).events().len() + 1
                &&& final(coordinator).events().drop_last() == old(coordinator).events()
                &&& is_validation_event(
                    final(coordinator).events().last(),
                    worker_id,
                    rendered(*e, worker_id),
                )
            },
        },
{
    match result {
        Ok(_) => PostTurnActions {
            notice: PostTurnNotice::ToOrchestrator(
                format_completion_message(worker_id, task_slug, notes),
            ),
            clear_session: Some(worker_name_exec(worker_id)),
        },
        Err(e) => {
            let message = e.render(worker_id);
            coordinator.validation_failed(worker_id, message.as_str());
            PostTurnActions { notice: PostTurnNotice::ToWorker(message), clear_session: None }
        },
    }
}

/// The time left, in milliseconds, for a check that has run `elapsed_ms`
/// under a timeout of `timeout_seconds`; none once the timeout has passed.
pub open spec fn time_left(timeout_seconds: u32, elapsed_ms: u64) -> Option<int> {
    let limit = timeout_seconds * 1000;
    if elapsed_ms < limit {
        Some(limit - elapsed_ms)
    } else {
        None
    }
}

/// How much longer to wait for a running check: the milliseconds left of
/// its timeout, or `None` once the timeout has passed and the check is to
/// be stopped.
pub fn check_time_left(timeout_seconds: u32, elapsed_ms: u64) -> (r: Option<u64>)
    ensures
        match r {
            Some(ms) => time_left(timeout_seconds, elapsed_ms) == Some(ms as int),
            None => time_left(timeout_seconds, elapsed_ms) is None,
        },
{
    let limit: u64 = timeout_seconds as u64 * 1000;
    if elapsed_ms < limit {
        Some(limit - elapsed_ms)
    } else {
        None
    }
}

/// The note added to a check's standard error when its timeout stopped it.
pub open spec fn timeout_note(timeout_seconds: u32) -> Seq<char> {
    "timed out after "@ + decimal(timeout_seconds as nat) + " seconds"@
}

/// The failure of the check `check_id` that was stopped when its timeout
/// of `timeout_seconds` passed: a failed check with no exit code, with the
/// output captured so far and the timeout noted on a line of its own after
/// the standard error.
pub fn timeout_failure(check_id: &str, timeout_seconds: u32, stdout: String, stderr: String) -> (r: PostTurnError)
    ensures
        (r matches PostTurnError::CheckFailed { id, stdout: o, stderr: e, exit_code: c } && id@
            == check_id@ && o@ == stdout@ && c is None && e@ == (if stderr@.len() == 0 {
            timeout_note(timeout_seconds)
        } else {
            stderr@ + "\n"@ + timeout_note(timeout_seconds)
        })),
{
    let mut v = chars_of(stderr.as_str());
    if v.len() > 0 {
        push_str_chars(&mut v, "\n");
    }
    push_str_chars(&mut v, "timed out after ");
    push_decimal(&mut v, timeout_seconds as u64);
    push_str_chars(&mut v, " seconds");
    proof {
        if stderr@.len() == 0 {
            assert(v@ =~= timeout_note(timeout_seconds));
        } else {
            assert(v@ =~= stderr@ + "\n"@ + timeout_note(timeout_seconds));
        }
    }
    PostTurnError::CheckFailed {
        id: owned(check_id),
        stdout,
        stderr: string_of(&v),
        exit_code: None,
    }
}

} // verus!
