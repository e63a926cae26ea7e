use robot_farm::shared::codex_exec::{build_default_codex_exec_command, CodexExecBuilder};

#[test]
fn builds_default_exec_start_command() {
    let args = build_default_codex_exec_command(Some(9000), None);
    assert_eq!(args[0], "codex");
    assert_eq!(args[1], "exec");
    assert!(args.contains(&"-C".to_string()));
    assert!(args.contains(&"/workspace".to_string()));
    assert!(args.contains(&"--json".to_string()));
    assert!(args.contains(&"--output-schema".to_string()));
    assert!(args.contains(&"/opt/robot-farm/schema.json".to_string()));
    assert!(args.contains(&"-c".to_string()));
    assert!(args.contains(&"mcp_servers.robot_farm.enabled=true".to_string()));
    assert!(args.contains(&"mcp_servers.robot_farm.tool_timeout_sec=900".to_string()));
    assert!(
        args.contains(&"mcp_servers.robot_farm.url=\"http://127.0.0.1:9000/mcp\"".to_string())
    );
}

#[test]
fn builds_resume_command_with_session() {
    let args = build_default_codex_exec_command(None, Some("session-123"));
    assert_eq!(args[0], "codex");
    assert_eq!(args[1], "exec");
    assert_eq!(args[2], "resume");
    assert!(args.contains(&"session-123".to_string()));
}

#[test]
fn default_command_has_exact_layout() {
    let args = build_default_codex_exec_command(None, None);
    let expected = vec![
        "codex",
        "exec",
        "-C",
        "/workspace",
        "-c",
        "mcp_servers.robot_farm.enabled=true",
        "-c",
        "mcp_servers.robot_farm.tool_timeout_sec=900",
        "-c",
        "mcp_servers.robot_farm.url=\"http://127.0.0.1:8080/mcp\"",
        "--output-schema",
        "/opt/robot-farm/schema.json",
        "--json",
    ];
    assert_eq!(args, expected);
}

#[test]
fn start_command_puts_prompt_then_command_last() {
    let args = CodexExecBuilder::new()
        .model("gpt-5.1")
        .sandbox("workspace-write")
        .profile("dev")
        .working_dir("/src")
        .color("never")
        .add_image("a.png")
        .enable_feature("x")
        .disable_feature("y")
        .full_auto(true)
        .oss(true)
        .output_last_message("/tmp/last")
        .prompt("do it")
        .command("now")
        .build();
    let expected = vec![
        "codex",
        "exec",
        "--enable",
        "x",
        "--disable",
        "y",
        "--image",
        "a.png",
        "--model",
        "gpt-5.1",
        "--sandbox",
        "workspace-write",
        "--profile",
        "dev",
        "--cd",
        "/src",
        "--output-last-message",
        "/tmp/last",
        "--color",
        "never",
        "--full-auto",
        "--oss",
        "do it",
        "now",
    ];
    assert_eq!(args, expected);
}

#[test]
fn resume_without_session_uses_last_when_asked() {
    let args = CodexExecBuilder::resume().resume_last(true).prompt("again").build();
    assert_eq!(args, vec!["codex", "exec", "resume", "--last", "again"]);
    let plain = CodexExecBuilder::resume().build();
    assert_eq!(plain, vec!["codex", "exec", "resume"]);
}

#[test]
fn resume_ignores_command_and_prefers_session() {
    let args = CodexExecBuilder::resume()
        .session_id("abc")
        .resume_last(true)
        .command("ignored")
        .skip_git_repo_check(true)
        .json(true)
        .build();
    assert_eq!(
        args,
        vec!["codex", "exec", "resume", "--json", "--skip-git-repo-check", "abc"]
    );
}

#[test]
fn later_settings_replace_earlier_ones() {
    let args = CodexExecBuilder::new().model("a").model("b").json(true).json(false).build();
    assert_eq!(args, vec!["codex", "exec", "--model", "b"]);
}

#[test]
fn session_id_is_ignored_when_starting() {
    let plain = CodexExecBuilder::new().json(true).prompt("go").build();
    let with_id = CodexExecBuilder::new().json(true).prompt("go").session_id("abc").build();
    assert_eq!(plain, with_id);
}

#[test]
fn session_id_replaces_last_when_resuming() {
    let args = CodexExecBuilder::resume().resume_last(true).json(true).session_id("abc").build();
    assert_eq!(args, vec!["codex", "exec", "resume", "--json", "abc"]);
    assert!(!args.contains(&"--last".to_string()));
    let without = CodexExecBuilder::resume().resume_last(true).json(true).build();
    assert_eq!(without, vec!["codex", "exec", "resume", "--json", "--last"]);
}

#[test]
fn config_overrides_keep_their_order() {
    let base = CodexExecBuilder::resume().json(true).build();
    let args = CodexExecBuilder::resume()
        .json(true)
        .config_override("a=1")
        .config_override("a=1")
        .build();
    assert_eq!(args.len(), base.len() + 4);
    assert_eq!(args[3..7], ["-c", "a=1", "-c", "a=1"]);
}
