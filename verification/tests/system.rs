use robot_farm::models::{
    ActiveStrategy, AgentModelOverrides, AgentReasoningOverrides, DockerOverrides, FeedLevel,
    ModelName, ReasoningEffort, Strategy,
};
use robot_farm::system::codex_config::{
    default_models, default_reasoning, model_choice, validate_preferences, AgentKind,
    CodexSettings, ModelChoice,
};
use robot_farm::system::dirty_staging::{DirtyStagingAction, DirtyStagingSetting};
use robot_farm::system::docker_overrides::OverridesStore;
use robot_farm::system::events::{EventDetails, SystemActor, SystemEvent, SystemEventCategory};
use robot_farm::system::features::{FeatureStore, FeatureToggles};
use robot_farm::system::init_system_state;
use robot_farm::system::queue::{OrchestratorHint, QueueCoordinator, QueueError};
use robot_farm::system::runner::{plan_codex_run, Persona, RunnerConfig, RunnerEnvironment};
use robot_farm::system::staging_hooks::StagingHooks;
use robot_farm::system::strategy::StrategyState;

#[test]
fn codex_settings_default_then_replace_then_reset() {
    let mut s = CodexSettings::new();
    let w = s.settings_for(AgentKind::Worker);
    assert_eq!(w.model, "gpt-5.1-codex");
    assert_eq!(w.reasoning, "medium");
    s.replace(
        AgentModelOverrides {
            orchestrator: ModelName::Gpt5Period1CodexMax,
            worker: ModelName::Gpt5Period1CodexMini,
            wizard: ModelName::Gpt5Period1,
        },
        AgentReasoningOverrides {
            orchestrator: ReasoningEffort::High,
            worker: ReasoningEffort::Low,
            wizard: ReasoningEffort::Medium,
        },
    );
    assert_eq!(s.settings_for(AgentKind::Orchestrator).model, "gpt-5.1-codex-max");
    assert_eq!(s.settings_for(AgentKind::Orchestrator).reasoning, "high");
    assert_eq!(s.settings_for(AgentKind::Worker).model, "gpt-5.1-codex-mini");
    assert_eq!(s.settings_for(AgentKind::Wizard).model, "gpt-5.1");
    s.reset();
    assert_eq!(s.settings_for(AgentKind::Wizard).model, "gpt-5.1-codex");
    assert_eq!(s.settings_for(AgentKind::Wizard).reasoning, "medium");
}

#[test]
fn low_reasoning_on_mini_is_refused() {
    assert!(validate_preferences(&default_models(), &default_reasoning()).is_ok());
    let models = AgentModelOverrides {
        orchestrator: ModelName::Gpt5Period1Codex,
        worker: ModelName::Gpt5Period1CodexMini,
        wizard: ModelName::Gpt5Period1CodexMini,
    };
    let reasoning = AgentReasoningOverrides {
        orchestrator: ReasoningEffort::Low,
        worker: ReasoningEffort::Low,
        wizard: ReasoningEffort::Low,
    };
    assert_eq!(
        validate_preferences(&models, &reasoning),
        Err(
            "Reasoning level \"low\" is not supported when the worker persona uses gpt-5.1-codex-mini."
                .to_string()
        )
    );
    let ok = AgentReasoningOverrides {
        orchestrator: ReasoningEffort::Low,
        worker: ReasoningEffort::Medium,
        wizard: ReasoningEffort::High,
    };
    assert!(validate_preferences(&models, &ok).is_ok());
}

#[test]
fn model_choice_knows_mini() {
    assert!(model_choice(ModelName::Gpt5Period1CodexMini).is_mini());
    assert!(!model_choice(ModelName::Gpt5Period1Codex).is_mini());
    let c = ModelChoice::new("x", true);
    assert!(c.is_mini());
    assert_eq!(c.as_str(), "x");
}

#[test]
fn dirty_staging_action_parses_any_case() {
    assert_eq!(DirtyStagingAction::from_str("Commit"), Some(DirtyStagingAction::Commit));
    assert_eq!(DirtyStagingAction::from_str("STASH"), Some(DirtyStagingAction::Stash));
    assert_eq!(DirtyStagingAction::from_str(" stash"), None);
    assert_eq!(DirtyStagingAction::Stash.as_str(), "stash");
    let mut setting = DirtyStagingSetting::new();
    assert_eq!(setting.current(), DirtyStagingAction::Commit);
    setting.set(DirtyStagingAction::Stash);
    assert_eq!(setting.current(), DirtyStagingAction::Stash);
}

#[test]
fn overrides_go_before_the_image() {
    let mut store = OverridesStore::new();
    let mut args = vec!["docker".to_string(), "run".to_string(), "img".to_string(), "cmd".to_string()];
    store.apply_overrides(AgentKind::Worker, &mut args, "img");
    assert_eq!(args, vec!["docker", "run", "img", "cmd"]);
    store.replace(DockerOverrides {
        orchestrator: vec![],
        worker: vec!["--cpus".to_string(), "2".to_string()],
        wizard: vec!["--x".to_string()],
    });
    store.apply_overrides(AgentKind::Worker, &mut args, "img");
    assert_eq!(args, vec!["docker", "run", "--cpus", "2", "img", "cmd"]);
    let mut other = vec!["a".to_string()];
    store.apply_overrides(AgentKind::Wizard, &mut other, "missing");
    assert_eq!(other, vec!["a", "--x"]);
    assert_eq!(store.overrides_for(AgentKind::Orchestrator), Vec::<String>::new());
    store.reset();
    assert!(store.overrides_for(AgentKind::Worker).is_empty());
}

#[test]
fn actor_labels_round_trip() {
    assert_eq!(SystemActor::Worker(12).label(), "ws12");
    assert_eq!(SystemActor::QualityAssurance.label(), "Quality Assurance");
    assert_eq!(SystemActor::from_label("  WS12 "), Some(SystemActor::Worker(12)));
    assert_eq!(SystemActor::from_label("qa"), Some(SystemActor::QualityAssurance));
    assert_eq!(SystemActor::from_label("SYSTEM"), Some(SystemActor::System));
    assert_eq!(SystemActor::from_label("orchestrator"), Some(SystemActor::Orchestrator));
    assert_eq!(SystemActor::from_label("ws"), None);
    assert_eq!(SystemActor::from_label("worker"), None);
    for a in [
        SystemActor::System,
        SystemActor::Orchestrator,
        SystemActor::QualityAssurance,
        SystemActor::Worker(-4),
        SystemActor::Worker(i64::MAX),
    ] {
        assert_eq!(SystemActor::from_label(&a.label()), Some(a));
    }
    assert_eq!(SystemEventCategory::Validation.as_str(), "validation");
}

#[test]
fn feature_store_replace_and_reset() {
    let mut f = FeatureStore::new();
    assert!(!f.persistent_threads());
    f.replace(FeatureToggles { persistent_threads: true, ghost_commits: false, drift_manager: true });
    assert!(f.persistent_threads());
    assert!(!f.ghost_commits());
    assert!(f.drift_manager());
    f.reset();
    assert_eq!(f.snapshot(), FeatureToggles::default());
}

#[test]
fn staging_hooks_replace_and_list() {
    let mut h = StagingHooks::new();
    assert!(h.list().is_empty());
    h.replace(vec!["a".to_string(), "b".to_string()]);
    assert_eq!(h.list(), vec!["a", "b"]);
}

#[test]
fn strategy_update_normalizes_focus() {
    let mut s = StrategyState::new();
    assert_eq!(s.snapshot().id, Strategy::Planning);
    assert_eq!(s.snapshot().focus, Some(vec![]));
    let r = s.update(ActiveStrategy { id: Strategy::WindDown, focus: Some(vec![3]) });
    assert_eq!(r.focus, Some(vec![]));
    let r = s.update(ActiveStrategy { id: Strategy::Aggressive, focus: None });
    assert_eq!(r.focus, Some(vec![]));
    let r = s.update(ActiveStrategy { id: Strategy::BugSmash, focus: Some(vec![1, 2]) });
    assert_eq!(r.focus, Some(vec![1, 2]));
    assert_eq!(s.snapshot().id, Strategy::BugSmash);
    assert_eq!(s.snapshot().focus, Some(vec![1, 2]));
}

#[test]
fn queue_assignments() {
    let mut q = QueueCoordinator::new();
    assert!(q.assign_task(1, 10, Some("t-10".to_string())).is_ok());
    assert_eq!(q.assign_task(1, 11, None), Err(QueueError::WorkerBusy));
    let t = q.assigned_task(1).unwrap();
    assert_eq!(t.task_id, 10);
    assert_eq!(t.slug.as_deref(), Some("t-10"));
    q.clear_assignment(1);
    assert!(q.assigned_task(1).is_none());
    assert!(q.assign_task(1, 11, None).is_ok());
    q.unregister_worker(1);
    assert!(q.assigned_task(1).is_none());
    assert_eq!(QueueError::WorkerBusy.message(), "worker already has an assignment");
}

#[test]
fn hints_for_idle_workers() {
    let mut q = QueueCoordinator::new();
    q.register_worker(1);
    q.register_worker(2);
    q.register_worker(2);
    q.assign_task(3, 5, None).unwrap();
    let hints = q.orchestrator_hints(&ActiveStrategy { id: Strategy::Moderate, focus: Some(vec![7]) });
    let mut workers: Vec<i64> = hints
        .iter()
        .map(|h| match h {
            OrchestratorHint::AssignTask { to_worker, from_groups } => {
                assert_eq!(from_groups, &vec!["7".to_string()]);
                *to_worker
            }
            OrchestratorHint::SendSupport { .. } => panic!("expected assignment hints"),
        })
        .collect();
    workers.sort();
    assert_eq!(workers, vec![1, 2]);
    let planning = q.orchestrator_hints(&ActiveStrategy { id: Strategy::Planning, focus: None });
    assert_eq!(planning.len(), 2);
    assert!(planning.iter().all(|h| matches!(h, OrchestratorHint::SendSupport { .. })));
    let empty = QueueCoordinator::new().orchestrator_hints(&ActiveStrategy { id: Strategy::Aggressive, focus: None });
    assert!(empty.is_empty());
}

#[test]
fn queue_events_drain_in_order() {
    let mut q = QueueCoordinator::new();
    q.user_message(SystemActor::System, SystemActor::Worker(2), "hello");
    q.validation_failed(2, "tests failed");
    q.record_assignment_hint(&vec!["hint".to_string()]);
    let events = q.drain_events();
    assert_eq!(events.len(), 3);
    assert_eq!(events[0].summary, "hello");
    assert_eq!(events[0].level, FeedLevel::Info);
    assert!(matches!(&events[0].details, EventDetails::Message(m) if m == "hello"));
    assert_eq!(events[1].level, FeedLevel::Warning);
    assert_eq!(events[1].target, SystemActor::Worker(2));
    assert_eq!(events[2].category, SystemEventCategory::Strategy);
    assert!(q.drain_events().is_empty());
    let e = SystemEvent::new(
        FeedLevel::Error,
        SystemActor::System,
        SystemActor::Orchestrator,
        SystemEventCategory::Merge,
        "m",
        EventDetails::Hint("h".to_string()),
    );
    assert_eq!(e.summary, "m");
}

#[test]
fn system_starts_planning_with_empty_queue() {
    let s = init_system_state();
    assert_eq!(s.strategy.snapshot().id, Strategy::Planning);
    assert!(s.queue.assigned_task(1).is_none());
}

#[test]
fn worker_run_plan() {
    let settings = CodexSettings::new();
    let env = RunnerEnvironment {
        project_dir: "/p".to_string(),
        orchestrator_image: "orch".to_string(),
        worker_image: "work".to_string(),
        home: Some("/home/me".to_string()),
        docker_host: "host.docker.internal".to_string(),
    };
    let plan = plan_codex_run(Persona::Worker(3), None, RunnerConfig::default(), &settings, &env);
    let expected_docker = vec![
        "docker", "run", "-i", "--rm", "-a", "STDOUT", "-a", "STDERR", "-u", "1000:1000",
        "--workdir", "/workspace", "-v", "/p/ws3:/workspace:rw", "-v",
        "/home/me/.codex:/home/codex/.codex:rw", "-e", "CODEX_NO_COLOR=1", "-e",
        "HOME=/home/codex", "-e", "CODEX_HOME=/home/codex/.codex", "-e", "PWD=/workspace",
        "work",
    ];
    assert_eq!(plan.docker_args, expected_docker);
    let expected_codex = vec![
        "codex", "exec", "-C", "/workspace",
        "-c", "mcp_servers.robot_farm.enabled=true",
        "-c", "mcp_servers.robot_farm.tool_timeout_sec=900",
        "-c", "mcp_servers.robot_farm.url=\"http://host.docker.internal:8080/mcp\"",
        "-c", "mcp_servers.robot_farm.http_headers={\"Agent\"=\"ws3\"}",
        "-c", "model=\"gpt-5.1-codex\"",
        "-c", "model_reasoning_effort=\"medium\"",
        "--output-schema", "/opt/robot-farm/schema.json", "--json",
    ];
    assert_eq!(plan.codex_args, expected_codex);
    let orch = plan_codex_run(
        Persona::Orchestrator,
        Some("thread-1"),
        RunnerConfig { api_port: Some(9000) },
        &settings,
        &RunnerEnvironment { home: None, ..env.clone() },
    );
    assert!(orch.docker_args.contains(&"/p/staging:/workspace:rw".to_string()));
    assert!(orch.docker_args.contains(&"./.codex:/home/codex/.codex:rw".to_string()));
    assert_eq!(orch.docker_args.last().unwrap(), "orch");
    assert_eq!(&orch.codex_args[0..3], &["codex", "exec", "resume"]);
    assert_eq!(orch.codex_args.last().unwrap(), "thread-1");
    assert!(orch
        .codex_args
        .contains(&"mcp_servers.robot_farm.http_headers={\"Agent\"=\"orchestrator\"}".to_string()));
    assert!(orch.codex_args.contains(&"mcp_servers.robot_farm.url=\"http://host.docker.internal:9000/mcp\"".to_string()));
}
