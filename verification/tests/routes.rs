use robot_farm::models::{AgentModelOverrides, AgentReasoningOverrides, DockerOverrides, FeedLevel, ModelName, ReasoningEffort};
use robot_farm::routes::config::{
    config_dir, config_file_path, configured_action, db_dir, missing_config_fields,
    validate_workspace_config, ConfigError,
};
use robot_farm::routes::requests::{commit_error_status, trimmed_request};
use robot_farm::routes::task_group::is_builtin_group;
use robot_farm::routes::task_wizard::{
    build_task_wizard_command, completion_summary, resolve_api_port, summarize,
    task_wizard_feed_entry, JsonLineBuffer, TaskWizardError, WizardEnvironment,
};
use robot_farm::routes::task_wizard::{completion_status, RunCompletionStatus};
use robot_farm::routes::config::{default_config_fields, default_field_value, FieldDefault};
use robot_farm::threads::process_manager::ChildEnd;
use robot_farm::routes::task_wizard::{StartRefusal, WizardSession};
use robot_farm::shared::git::GitError;
use robot_farm::system::codex_config::CodexSettings;
use robot_farm::system::dirty_staging::DirtyStagingAction;
use robot_farm::system::docker_overrides::OverridesStore;

#[test]
fn config_locations() {
    assert_eq!(config_dir("/w"), "/w/.robot-farm-rs");
    assert_eq!(db_dir("/w"), "/w/.robot-farm-rs/db");
    assert_eq!(config_file_path("/w"), "/w/.robot-farm-rs/config.json");
}

#[test]
fn older_configs_get_new_fields() {
    let present = vec!["models".to_string(), "commands".to_string(), "ghost_commits".to_string()];
    assert_eq!(
        missing_config_fields(&present),
        vec![
            "reasoning",
            "docker_overrides",
            "dirty_staging_action",
            "on_staging_change",
            "persistent_threads",
            "drift_manager",
        ]
    );
    let all: Vec<String> = missing_config_fields(&vec![]);
    assert_eq!(all.len(), 8);
    assert!(missing_config_fields(&all).is_empty());
}

#[test]
fn configured_dirty_staging_action() {
    assert_eq!(configured_action(Some("STASH")), DirtyStagingAction::Stash);
    assert_eq!(configured_action(Some("other")), DirtyStagingAction::Commit);
    assert_eq!(configured_action(None), DirtyStagingAction::Commit);
}

#[test]
fn config_errors() {
    let e = ConfigError::NotFound("/w/c.json".to_string());
    assert_eq!(e.status(), 404);
    assert_eq!(e.message(), "config file not found at /w/c.json");
    assert_eq!(ConfigError::Serde("bad".to_string()).status(), 400);
    assert_eq!(ConfigError::Io("x".to_string()).status(), 500);
    assert_eq!(ConfigError::Io("x".to_string()).message(), "config IO error: x");
    let models = AgentModelOverrides {
        orchestrator: ModelName::Gpt5Period1CodexMini,
        worker: ModelName::Gpt5Period1Codex,
        wizard: ModelName::Gpt5Period1Codex,
    };
    let low = AgentReasoningOverrides {
        orchestrator: ReasoningEffort::Low,
        worker: ReasoningEffort::Low,
        wizard: ReasoningEffort::Low,
    };
    let (code, msg) = validate_workspace_config(&models, &low).unwrap_err();
    assert_eq!(code, 400);
    assert!(msg.contains("orchestrator persona uses gpt-5.1-codex-mini"));
}

#[test]
fn request_checks() {
    assert_eq!(trimmed_request("  ls -la "), Some("ls -la".to_string()));
    assert_eq!(trimmed_request(" \t "), None);
    assert_eq!(commit_error_status(&GitError::CommandFailure { stderr: "x".to_string() }), 400);
    assert_eq!(commit_error_status(&GitError::NotFound("x".to_string())), 500);
}

#[test]
fn builtin_groups() {
    assert!(is_builtin_group("Chores"));
    assert!(is_builtin_group("HOTFIX"));
    assert!(is_builtin_group("bugs"));
    assert!(!is_builtin_group("features"));
}

#[test]
fn summaries_are_cut_at_160_characters() {
    let short = "é".repeat(160);
    assert_eq!(summarize(&short), short);
    let long = "x".repeat(200);
    let s = summarize(&long);
    assert_eq!(s.chars().count(), 161);
    assert!(s.ends_with('…'));
    assert_eq!(completion_summary(None), "Wizard completed without a final message.");
    assert_eq!(completion_summary(Some("hi")), "hi");
    let entry = task_wizard_feed_entry(&long, false, "{}".to_string());
    assert_eq!(entry.level, FeedLevel::Error);
    assert_eq!(entry.text, s);
    assert_eq!(entry.source, "TaskWizard");
    assert_eq!(entry.category, "task_wizard");
}

#[test]
fn wizard_errors() {
    assert_eq!(TaskWizardError::Busy.as_str(), "Wizard is already running a turn.");
    assert_eq!(TaskWizardError::SpawnFailed("no docker".to_string()).as_str(), "no docker");
}

#[test]
fn api_port_resolution() {
    assert_eq!(resolve_api_port(Some("9001"), Some("9002")), 9001);
    assert_eq!(resolve_api_port(Some("nope"), Some("9002")), 9002);
    assert_eq!(resolve_api_port(None, Some("70000")), 8080);
    assert_eq!(resolve_api_port(None, None), 8080);
}

#[test]
fn json_lines_are_cut_and_checked() {
    let mut b = JsonLineBuffer::new();
    assert_eq!(b.ingest(b"{\"a\":1}\r\n  \n{\"b\""), vec!["{\"a\":1}"]);
    assert_eq!(b.ingest(b":2}\n\xff\xfe\n"), vec!["{\"b\":2}"]);
    assert_eq!(b.ingest(b" tail "), Vec::<String>::new());
    assert_eq!(b.flush(), Some("tail".to_string()));
    assert_eq!(b.flush(), None);
    b.ingest(b"\xff");
    assert_eq!(b.flush(), None);
}

#[test]
fn wizard_command_line() {
    let mut overrides = OverridesStore::new();
    overrides.replace(DockerOverrides {
        orchestrator: vec![],
        worker: vec![],
        wizard: vec!["--network".to_string(), "host".to_string()],
    });
    let env = WizardEnvironment {
        image: "robot-farm-wizard".to_string(),
        home: None,
        docker_host: "host.docker.internal".to_string(),
    };
    let args = build_task_wizard_command(8080, Some("t-1"), "/tmp/wiz", &CodexSettings::new(), &overrides, &env);
    let expected = vec![
        "docker", "run", "-i", "--rm", "-a", "STDOUT", "-a", "STDERR", "-u", "1000:1000",
        "--workdir", "/workspace", "-v", "/tmp/wiz:/workspace:rw", "-v",
        "/home/codex/.codex:/home/codex/.codex", "--network", "host", "robot-farm-wizard",
        "codex", "exec", "resume", "-C", "/workspace",
        "-c", "mcp_servers.robot_farm.enabled=true",
        "-c", "mcp_servers.robot_farm.tool_timeout_sec=900",
        "-c", "mcp_servers.robot_farm.enabled_tools=[\"tasks_list\",\"tasks_get\",\"tasks_create\",\"tasks_update\",\"tasks_set_status\",\"task_groups_list\",\"task_groups_get\",\"task_groups_create\",\"task_dependencies_get\",\"task_dependencies_set\"]",
        "-c", "mcp_servers.robot_farm.url=\"http://host.docker.internal:8080/mcp\"",
        "-c", "mcp_servers.robot_farm.http_headers.AGENT=\"wizard\"",
        "-c", "model=\"gpt-5.1-codex\"",
        "-c", "model_reasoning_effort=\"medium\"",
        "--json", "--skip-git-repo-check", "t-1",
    ];
    assert_eq!(args, expected);
}

#[test]
fn wizard_session_turns() {
    let mut s = WizardSession::new();
    assert_eq!(s.check_start("  "), Err(StartRefusal::EmptyPrompt));
    assert_eq!(s.check_start("import tasks"), Ok(()));
    s.run_started(1);
    assert_eq!(s.check_start("again"), Err(StartRefusal::Busy));
    assert_eq!(StartRefusal::Busy.message(), "Wizard is already running a turn.");
    assert!(!s.thread_started(2, "stale"));
    assert_eq!(s.thread_id(), None);
    assert!(s.thread_started(1, "thread-a"));
    assert_eq!(s.thread_id(), Some("thread-a".to_string()));
    assert_eq!(s.cancel_target(), Some(1));
    assert!(!s.run_completed(2));
    assert!(s.run_completed(1));
    assert_eq!(s.cancel_target(), None);
    assert_eq!(s.thread_id(), Some("thread-a".to_string()));
    s.run_started(3);
    assert_eq!(s.shutdown(), Some(3));
    assert_eq!(s.thread_id(), None);
}

#[test]
fn json_lines_do_not_depend_on_chunking() {
    let data: &[u8] = b"{\"a\":1}\r\n\n  \n{\"b\":2}\n{\"c\"";
    let mut whole = JsonLineBuffer::new();
    let all_at_once = whole.ingest(data);
    for cut in 0..=data.len() {
        let mut split = JsonLineBuffer::new();
        let mut lines = split.ingest(&data[..cut]);
        lines.extend(split.ingest(&data[cut..]));
        assert_eq!(lines, all_at_once);
        assert_eq!(split.flush(), Some("{\"c\"".to_string()));
    }
    assert_eq!(all_at_once, vec!["{\"a\":1}".to_string(), "{\"b\":2}".to_string()]);
}

#[test]
fn wizard_completion_statuses() {
    assert!(matches!(completion_status::<()>(ChildEnd::Exited(Some(0))), RunCompletionStatus::Success));
    match completion_status::<()>(ChildEnd::Exited(Some(2))) {
        RunCompletionStatus::Failed(m) => assert_eq!(m, "Task wizard exited with code Some(2)"),
        other => panic!("unexpected {:?}", other),
    }
    match completion_status::<()>(ChildEnd::Exited(None)) {
        RunCompletionStatus::Failed(m) => assert_eq!(m, "Task wizard exited with code None"),
        other => panic!("unexpected {:?}", other),
    }
    assert!(matches!(completion_status(ChildEnd::Killed("user")), RunCompletionStatus::Killed));
    match completion_status::<()>(ChildEnd::WaitFailed("no such file".to_string())) {
        RunCompletionStatus::Failed(m) => assert_eq!(m, "no such file"),
        other => panic!("unexpected {:?}", other),
    }
}

#[test]
fn json_lines_over_many_chunks() {
    let data: &[u8] = b"{\"a\":1}\n\n{\"b\":2}\r\n{\"c\":3}\n";
    let mut whole = JsonLineBuffer::new();
    let all_at_once = whole.ingest(data);
    let mut bytewise = JsonLineBuffer::new();
    let mut lines = Vec::new();
    for byte in data {
        lines.extend(bytewise.ingest(std::slice::from_ref(byte)));
    }
    assert_eq!(lines, all_at_once);
    assert_eq!(bytewise.flush(), None);
}

#[test]
fn configuration_defaults() {
    assert_eq!(default_field_value("dirty_staging_action"), Some(FieldDefault::Action(DirtyStagingAction::Commit)));
    assert_eq!(default_field_value("ghost_commits"), Some(FieldDefault::Flag(false)));
    assert_eq!(default_field_value("on_staging_change"), Some(FieldDefault::EmptyList));
    assert_eq!(default_field_value("docker_overrides"), Some(FieldDefault::NoDockerOverrides));
    assert_eq!(default_field_value("commands"), None);
    match default_field_value("models") {
        Some(FieldDefault::Models(m)) => assert_eq!(m.worker, ModelName::Gpt5Period1Codex),
        other => panic!("unexpected {:?}", other),
    }
    let fields = default_config_fields();
    let names: Vec<&str> = fields.iter().map(|(n, _)| n.as_str()).collect();
    assert_eq!(
        names,
        vec![
            "workspace_path", "append_agents_file", "commands", "post_turn_checks", "models",
            "reasoning", "docker_overrides", "dirty_staging_action", "on_staging_change",
            "persistent_threads", "ghost_commits", "drift_manager",
        ]
    );
    assert_eq!(fields[0].1, FieldDefault::WorkspacePath);
    for (name, default) in &fields[4..] {
        assert_eq!(default_field_value(name), Some(*default));
    }
}
