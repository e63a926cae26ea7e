use robot_farm::models::{ActiveStrategy, Message, Strategy};
use robot_farm::shared::git::{GitError, MergeConflict};
use robot_farm::system::queue::{OrchestratorHint, QueueCoordinator};
use robot_farm::threads::database_manager::DatabaseManagerConfig;
use robot_farm::threads::messages::{
    format_assignment_message, format_blocked_message, format_completion_message,
    format_orchestrator_prompt, format_orchestrator_status, format_status_update,
    format_worker_prompt, strategy_footer,
};
use robot_farm::threads::middleware::{is_priority_intent, IntentBatcher, IntentKind, MiddlewareConfig};
use robot_farm::threads::post_turn::{
    capture_output, check_outcome, check_program, check_run_labels, commit_failure,
    split_program, worker_run_labels, PostTurnError, MAX_CAPTURE,
};
use robot_farm::threads::process_manager::{
    child_end, last_turn, parse_worker_id, ChildEnd, ProcessManagerConfig, RunLifecycle,
    StructuredOutputCollector,
};
use robot_farm::threads::post_turn::{
    check_run_end, check_time_left, finish_post_turn, next_check_step, post_turn_notice, timeout_failure,
    CheckStep, PostTurnNotice,
};
use robot_farm::system::events::{EventDetails, SystemActor};
use robot_farm::threads::middleware::IntentBatcher as Batcher;
use robot_farm::threads::queue_manager::{
    assignment_slug, is_orchestrator_owned, parse_worker_target, should_seed_assignments,
    staging_path, support_hints, worker_worktree_path, AgentRunActor, DispatchTarget, QueueManagerConfig,
    QueueManagerError, QueueRuntimeState,
};

#[test]
fn configs_have_documented_defaults() {
    let m = MiddlewareConfig::default();
    assert_eq!((m.batch_window_ms, m.max_batch, m.intent_buffer, m.directive_buffer), (500, 64, 256, 256));
    let p = ProcessManagerConfig::default();
    assert_eq!((p.event_buffer, p.kill_buffer), (128, 4));
    assert_eq!(QueueManagerConfig::default().command_buffer, 64);
    assert_eq!(DatabaseManagerConfig::default().command_buffer, 64);
}

#[test]
fn priority_intents_skip_batching() {
    assert!(is_priority_intent(&IntentKind::Kill));
    assert!(is_priority_intent(&IntentKind::AdjustPriority));
    assert!(!is_priority_intent(&IntentKind::Spawn));
    let mut b: IntentBatcher<u32> = IntentBatcher::new(3);
    assert!(b.push(1, false).is_empty());
    assert!(b.push(2, false).is_empty());
    assert_eq!(b.push(9, true), vec![vec![1, 2], vec![9]]);
    assert_eq!(b.push(10, true), vec![vec![10]]);
    assert!(b.push(3, false).is_empty());
    assert!(b.push(4, false).is_empty());
    assert_eq!(b.push(5, false), vec![vec![3, 4, 5]]);
    assert!(b.flush().is_empty());
    assert!(b.push(6, false).is_empty());
    assert_eq!(b.flush(), vec![vec![6]]);
}

#[test]
fn batches_keep_every_intent_in_order() {
    let mut b: IntentBatcher<u32> = IntentBatcher::new(4);
    let mut out: Vec<u32> = Vec::new();
    for i in 0..20u32 {
        for batch in b.push(i, i % 7 == 3) {
            assert!(!batch.is_empty() && batch.len() <= 4);
            out.extend(batch);
        }
    }
    for batch in b.flush() {
        out.extend(batch);
    }
    assert_eq!(out, (0..20).collect::<Vec<u32>>());
}

#[test]
fn run_worker_ids() {
    let tags = vec!["orchestrator".to_string(), "worker:x".to_string(), "worker:7".to_string()];
    assert_eq!(parse_worker_id(&tags, "whatever"), Some(7));
    assert_eq!(parse_worker_id(&vec![], "worker:ws12"), Some(12));
    assert_eq!(parse_worker_id(&vec![], "worker:wswsws5"), Some(5));
    assert_eq!(parse_worker_id(&vec![], "worker:abc"), None);
    assert_eq!(parse_worker_id(&vec![], "orchestrator"), None);
    let (persona, tags) = worker_run_labels(42);
    assert_eq!(persona, "worker:ws42");
    assert_eq!(tags, vec!["worker:42"]);
    assert_eq!(parse_worker_id(&tags, &persona), Some(42));
    let (persona, tags) = check_run_labels(8, "cargo-test");
    assert_eq!(persona, "post_turn_check:cargo-test");
    assert_eq!(tags, vec!["post_turn_check", "worker:8", "check:cargo-test"]);
    assert_eq!(parse_worker_id(&tags, &persona), Some(8));
}

#[test]
fn collector_cuts_lines() {
    let mut c = StructuredOutputCollector::new();
    c.ingest(b"  first \n\n sec");
    c.ingest(b"ond\nthird");
    assert_eq!(c.take_turn(), vec!["first", "second", "third"]);
    assert!(c.take_turn().is_empty());
    c.ingest(b"   ");
    assert!(c.take_turn().is_empty());
}

#[test]
fn runtime_state_holds_intents_while_paused() {
    let mut s: QueueRuntimeState<u32> = QueueRuntimeState::new();
    assert!(!s.should_drive());
    assert_eq!(s.enqueue_intent(1), None);
    assert_eq!(s.enqueue_intent(2), None);
    s.resume();
    assert!(s.should_drive());
    assert_eq!(s.enqueue_intent(3), Some(3));
    assert_eq!(s.pop_held(), Some(1));
    assert_eq!(s.pop_held(), Some(2));
    assert_eq!(s.pop_held(), None);
    s.pause();
    assert_eq!(s.enqueue_intent(4), None);
}

#[test]
fn runtime_state_tracks_runs() {
    let mut s: QueueRuntimeState<u32> = QueueRuntimeState::new();
    let mut q = QueueCoordinator::new();
    assert!(matches!(s.worker_run_to_kill(5), Err(QueueManagerError::WorkerNotRunning(5))));
    assert!(matches!(s.orchestrator_run_to_kill(), Err(QueueManagerError::OrchestratorNotRunning)));
    assert_eq!(s.dispatch_target("ws5"), DispatchTarget::Worker(5));
    s.worker_dispatched(5, 99);
    assert_eq!(s.worker_run_to_kill(5).unwrap(), 99);
    assert_eq!(s.dispatch_target("WS5"), DispatchTarget::Skip);
    assert_eq!(s.dispatch_target("Orchestrator"), DispatchTarget::Orchestrator);
    s.orchestrator_dispatched(7);
    assert_eq!(s.dispatch_target("orchestrator"), DispatchTarget::Skip);
    assert_eq!(s.dispatch_target("System"), DispatchTarget::Skip);
    q.assign_task(5, 1, None).unwrap();
    s.agent_completed(AgentRunActor::Worker(5), &mut q);
    assert!(q.assigned_task(5).is_none());
    assert_eq!(s.dispatch_target("ws5"), DispatchTarget::Worker(5));
    s.agent_completed(AgentRunActor::Orchestrator, &mut q);
    assert_eq!(s.dispatch_target("orchestrator"), DispatchTarget::Orchestrator);
}

#[test]
fn small_decisions() {
    assert!(!should_seed_assignments(&Strategy::Planning));
    assert!(!should_seed_assignments(&Strategy::WindDown));
    assert!(should_seed_assignments(&Strategy::HotfixSwarm));
    assert_eq!(parse_worker_target(" WS3 "), Some(3));
    assert_eq!(parse_worker_target("worker3"), None);
    assert_eq!(worker_worktree_path("/p", 3), "/p/ws3");
    assert_eq!(staging_path("/p/"), "/p/staging");
    assert_eq!(assignment_slug("  t-1 "), Some("t-1".to_string()));
    assert_eq!(assignment_slug("   "), None);
    assert!(is_orchestrator_owned(" Orchestrator "));
    assert!(!is_orchestrator_owned("ws1"));
}

fn message() -> Message {
    Message { id: 4, from: " ws1 ".to_string(), to: "Orchestrator".to_string(), message: " done \n".to_string() }
}

#[test]
fn prompts() {
    assert_eq!(
        format_worker_prompt(&message()),
        "Queue message #4 from ws1 to Orchestrator:\n\ndone\n\nRespond with a JSON object matching the Robot Farm worker turn schema.\n"
    );
    let s = ActiveStrategy { id: Strategy::Aggressive, focus: Some(vec![1, 2]) };
    assert_eq!(strategy_footer(&s), "Active Strategy: aggressive | Focus Groups: 1, 2");
    assert_eq!(
        strategy_footer(&ActiveStrategy { id: Strategy::Planning, focus: None }),
        "Active Strategy: planning | Focus Groups: none"
    );
    assert_eq!(
        format_orchestrator_prompt(&message(), &s),
        "Queue message #4 from ws1 to Orchestrator:\n\ndone\n\nRespond with a JSON object matching the Robot Farm orchestrator turn schema.\n\nActive Strategy: aggressive | Focus Groups: 1, 2\n"
    );
}

#[test]
fn agent_messages() {
    assert_eq!(format_status_update(2, "  ", None), None);
    assert_eq!(format_status_update(2, " ", Some("  ")), None);
    assert_eq!(format_status_update(2, " half way ", None), Some("ws2: half way".to_string()));
    assert_eq!(
        format_status_update(2, "", Some(" details ")),
        Some("ws2 sent a status update.\n\ndetails".to_string())
    );
    assert_eq!(format_blocked_message(2, "t-1", "needs db"), "ws2 is blocked on t-1: needs db");
    assert_eq!(format_completion_message(2, "t-1", Some("  ")), "ws2 completed t-1");
    assert_eq!(format_completion_message(2, "t-1", Some(" all good ")), "ws2 completed t-1: all good");
    assert_eq!(format_orchestrator_status(" ", None), "Orchestrator sent a status update.");
    assert_eq!(format_orchestrator_status(" ok ", Some(" more ")), "Status: ok\n\nmore");
    let steps = vec!["write".to_string(), "test".to_string()];
    assert_eq!(
        format_assignment_message("go", Some(""), "t-1", "Title", &steps, Some(" done when green ")),
        "New assignment: t-1 (Title)\n\nSummary: go\n\nSteps:\n1. write\n2. test\n\nAcceptance Criteria:\ndone when green\n\nRespond with STATUS_UPDATE for long-running work and COMPLETE_TASK when finished."
    );
    assert_eq!(
        format_assignment_message(" ", None, "t", "T", &vec![], None),
        "New assignment: t (T)\n\nRespond with STATUS_UPDATE for long-running work and COMPLETE_TASK when finished."
    );
}

#[test]
fn post_turn_errors_render() {
    let e = PostTurnError::CheckFailed {
        id: "cargo-test".to_string(),
        stdout: " out ".to_string(),
        stderr: "".to_string(),
        exit_code: Some(101),
    };
    assert_eq!(e.render(3), "Post-turn check 'cargo-test' failed for ws3 (exit Some(101)).\nstdout:\nout");
    let e = PostTurnError::CheckFailed {
        id: "c".to_string(),
        stdout: "".to_string(),
        stderr: "err".to_string(),
        exit_code: None,
    };
    assert_eq!(e.render(3), "Post-turn check 'c' failed for ws3 (exit None).\nstderr:\nerr");
    let conflicts = vec![
        MergeConflict { file: "a.rs".to_string(), diff: String::new() },
        MergeConflict { file: "b.rs".to_string(), diff: String::new() },
    ];
    assert_eq!(
        PostTurnError::MergeConflict(conflicts).render(4),
        "Merge conflict while syncing ws4. Conflicting files: a.rs, b.rs"
    );
    assert_eq!(
        PostTurnError::UnknownCheck("x".to_string()).render(1),
        "Configured post-turn check 'x' no longer exists. Please update config."
    );
    assert_eq!(
        PostTurnError::NothingToCommit.render(1),
        "No changes were detected to commit; ensure edits were saved."
    );
    assert_eq!(
        PostTurnError::MissingWorktree("/p/ws1".to_string()).render(1),
        "Worker worktree /p/ws1 is missing; cannot finalize turn."
    );
    assert!(matches!(commit_failure("nothing to commit, working tree clean"), PostTurnError::NothingToCommit));
    match commit_failure("fatal: boom") {
        PostTurnError::Git(m) => assert_eq!(m, "git command exited with error: fatal: boom"),
        _ => panic!("expected a git failure"),
    }
    let git = GitError::NotFound("ws9".to_string());
    assert_eq!(PostTurnError::Git(git.message()).render(1), "Git operation failed: worktree not found: ws9");
}

#[test]
fn post_turn_checks() {
    assert!(matches!(check_program("c", &vec![]), Err(PostTurnError::InvalidCommand(id)) if id == "c"));
    let (p, a) = check_program("c", &vec!["bash".to_string(), "-lc".to_string(), "x".to_string()]).unwrap();
    assert_eq!(p, "bash");
    assert_eq!(a, vec!["-lc", "x"]);
    assert!(check_outcome("c", Some(0), String::new(), String::new()).is_none());
    assert!(matches!(
        check_outcome("c", Some(1), "o".to_string(), "e".to_string()),
        Some(PostTurnError::CheckFailed { exit_code: Some(1), .. })
    ));
    assert!(check_outcome("c", None, String::new(), String::new()).is_some());
    let docker = vec!["docker".to_string(), "run".to_string()];
    let codex = vec!["codex".to_string()];
    let (prog, args) = split_program(&docker, &codex).unwrap();
    assert_eq!(prog, "docker");
    assert_eq!(args, vec!["run", "codex"]);
    assert!(split_program(&vec![], &codex).is_none());
}

#[test]
fn output_capture_is_bounded() {
    let mut buf = Vec::new();
    capture_output(&mut buf, &vec![1u8; 5000]);
    capture_output(&mut buf, &vec![2u8; 5000]);
    assert_eq!(buf.len(), MAX_CAPTURE);
    assert_eq!(buf[4999], 1);
    assert_eq!(buf[5000], 2);
    capture_output(&mut buf, &[3u8]);
    assert_eq!(buf.len(), MAX_CAPTURE);
}

#[test]
fn support_hints_offer_focus_task_when_seeding() {
    let strategy = ActiveStrategy { id: Strategy::Aggressive, focus: Some(vec![3, 7]) };
    let hints = support_hints(4, &strategy);
    assert_eq!(hints.len(), 2);
    assert!(matches!(hints[0], OrchestratorHint::SendSupport { to_worker: 4 }));
    match &hints[1] {
        OrchestratorHint::AssignTask { to_worker, from_groups } => {
            assert_eq!(*to_worker, 4);
            assert_eq!(from_groups, &vec!["3".to_string(), "7".to_string()]);
        }
        other => panic!("unexpected hint {:?}", other),
    }
}

#[test]
fn support_hints_only_check_in_while_planning() {
    let strategy = ActiveStrategy { id: Strategy::Planning, focus: Some(vec![1]) };
    let hints = support_hints(9, &strategy);
    assert_eq!(hints.len(), 1);
    assert!(matches!(hints[0], OrchestratorHint::SendSupport { to_worker: 9 }));
}

#[test]
fn child_end_cases() {
    let killed = child_end(Some("shutdown"), Ok(Some(137)));
    assert!(matches!(killed, ChildEnd::Killed("shutdown")));
    assert_eq!(killed.lifecycle(), RunLifecycle::Killed);
    let exited = child_end::<&str>(None, Ok(Some(1)));
    assert!(matches!(exited, ChildEnd::Exited(Some(1))));
    assert_eq!(exited.lifecycle(), RunLifecycle::Finished);
    let failed = child_end(Some("user"), Err("wait failed".to_string()));
    match &failed {
        ChildEnd::WaitFailed(m) => assert_eq!(m, "wait failed"),
        other => panic!("unexpected {:?}", other),
    }
    assert_eq!(failed.lifecycle(), RunLifecycle::Failed);
}

#[test]
fn last_turn_is_last_present() {
    assert_eq!(last_turn(vec![Some(1), None, Some(3), None]), Some(3));
    assert_eq!(last_turn::<i32>(vec![None, None]), None);
    assert_eq!(last_turn::<i32>(vec![]), None);
}

#[test]
fn check_steps() {
    let plan = vec!["lint".to_string(), "test".to_string()];
    let known = vec!["test".to_string(), "lint".to_string()];
    assert!(matches!(next_check_step(&vec![], &known, 0, None), CheckStep::Finished(Ok(()))));
    assert!(matches!(next_check_step(&plan, &known, 0, None), CheckStep::Run(0)));
    assert!(matches!(next_check_step(&plan, &known, 1, None), CheckStep::Run(1)));
    assert!(matches!(next_check_step(&plan, &known, 2, None), CheckStep::Finished(Ok(()))));
    match next_check_step(&plan, &vec!["lint".to_string()], 1, None) {
        CheckStep::Finished(Err(PostTurnError::UnknownCheck(id))) => assert_eq!(id, "test"),
        other => panic!("unexpected {:?}", other),
    }
    let failure = PostTurnError::CheckFailed {
        id: "lint".to_string(),
        stdout: String::new(),
        stderr: "bad".to_string(),
        exit_code: Some(1),
    };
    match next_check_step(&plan, &known, 1, Some(failure)) {
        CheckStep::Finished(Err(PostTurnError::CheckFailed { id, .. })) => assert_eq!(id, "lint"),
        other => panic!("unexpected {:?}", other),
    }
}

#[test]
fn check_run_ends() {
    assert!(matches!(check_run_end::<()>(ChildEnd::Exited(Some(3))), Ok(Some(3))));
    assert!(matches!(check_run_end(ChildEnd::Killed(())), Err(PostTurnError::ProcessTerminated)));
    match check_run_end::<()>(ChildEnd::WaitFailed("gone".to_string())) {
        Err(PostTurnError::Spawn(m)) => assert_eq!(m, "gone"),
        other => panic!("unexpected {:?}", other),
    }
}

#[test]
fn post_turn_notices() {
    match post_turn_notice(3, "fix-bug", Some("  done  "), &Ok(())) {
        PostTurnNotice::ToOrchestrator(m) => assert_eq!(m, "ws3 completed fix-bug: done"),
        other => panic!("unexpected {:?}", other),
    }
    match post_turn_notice(3, "fix-bug", None, &Err(PostTurnError::NothingToCommit)) {
        PostTurnNotice::ToWorker(m) => {
            assert_eq!(m, "No changes were detected to commit; ensure edits were saved.")
        }
        other => panic!("unexpected {:?}", other),
    }
}

#[test]
fn finishing_a_turn_successfully_clears_the_session() {
    let mut q = QueueCoordinator::new();
    let actions = finish_post_turn(&mut q, 4, "task-a", None, &Ok(()));
    match actions.notice {
        PostTurnNotice::ToOrchestrator(m) => assert_eq!(m, "ws4 completed task-a"),
        other => panic!("unexpected {:?}", other),
    }
    assert_eq!(actions.clear_session, Some("ws4".to_string()));
    assert!(q.drain_events().is_empty());
}

#[test]
fn finishing_a_failed_turn_records_a_validation_event() {
    let mut q = QueueCoordinator::new();
    let actions = finish_post_turn(&mut q, 4, "task-a", None, &Err(PostTurnError::ProcessTerminated));
    let text = "A post-turn command terminated unexpectedly.".to_string();
    match actions.notice {
        PostTurnNotice::ToWorker(m) => assert_eq!(m, text),
        other => panic!("unexpected {:?}", other),
    }
    assert_eq!(actions.clear_session, None);
    let events = q.drain_events();
    assert_eq!(events.len(), 1);
    assert_eq!(events[0].target, SystemActor::Worker(4));
    assert_eq!(events[0].summary, text);
    assert!(matches!(&events[0].details, EventDetails::Validation { worker: 4, .. }));
}

#[test]
fn check_timeouts() {
    assert_eq!(check_time_left(2, 500), Some(1500));
    assert_eq!(check_time_left(2, 2000), None);
    assert_eq!(check_time_left(0, 0), None);
    match timeout_failure("lint", 30, "out".to_string(), String::new()) {
        PostTurnError::CheckFailed { id, stdout, stderr, exit_code } => {
            assert_eq!(id, "lint");
            assert_eq!(stdout, "out");
            assert_eq!(stderr, "timed out after 30 seconds");
            assert_eq!(exit_code, None);
        }
        other => panic!("unexpected {:?}", other),
    }
    match timeout_failure("lint", 5, String::new(), "warn".to_string()) {
        PostTurnError::CheckFailed { stderr, .. } => assert_eq!(stderr, "warn\ntimed out after 5 seconds"),
        other => panic!("unexpected {:?}", other),
    }
}

#[test]
fn batches_stay_within_their_bound() {
    for max in 0..4usize {
        let mut b: Batcher<u32> = Batcher::new(max);
        let mut seen: Vec<u32> = Vec::new();
        for i in 0..20u32 {
            for batch in b.push(i, i % 7 == 3) {
                assert!(!batch.is_empty() && batch.len() <= max.max(1));
                seen.extend(batch);
            }
        }
        for batch in b.flush() {
            assert!(!batch.is_empty() && batch.len() <= max.max(1));
            seen.extend(batch);
        }
        assert_eq!(seen, (0..20u32).collect::<Vec<_>>());
    }
}
