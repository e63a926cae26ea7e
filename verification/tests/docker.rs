use robot_farm::shared::docker::{default_docker_host, ensure_default_mcp_url, DockerRunBuilder};

#[test]
fn docker_run_has_exact_layout() {
    let args = DockerRunBuilder::new("robot-farm-worker")
        .remove_container(true)
        .interactive(true)
        .attach("STDOUT")
        .attach("STDERR")
        .user("1000:1000")
        .workdir("/workspace")
        .volume("/host/ws1", "/workspace", Some("rw".to_string()))
        .volume("/host/.codex", "/home/codex/.codex", None)
        .env("A", "1")
        .command(vec!["codex".to_string(), "exec".to_string()])
        .build();
    let expected = vec![
        "docker",
        "run",
        "-i",
        "--rm",
        "-a",
        "STDOUT",
        "-a",
        "STDERR",
        "-u",
        "1000:1000",
        "--workdir",
        "/workspace",
        "-v",
        "/host/ws1:/workspace:rw",
        "-v",
        "/host/.codex:/home/codex/.codex",
        "-e",
        "A=1",
        "robot-farm-worker",
        "codex",
        "exec",
    ];
    assert_eq!(args, expected);
}

#[test]
fn docker_run_minimal() {
    assert_eq!(DockerRunBuilder::new("img").build(), vec!["docker", "run", "img"]);
}

#[test]
fn docker_command_is_replaced_not_appended() {
    let args = DockerRunBuilder::new("img")
        .command(vec!["a".to_string()])
        .command(vec!["b".to_string(), "c".to_string()])
        .build();
    assert_eq!(args, vec!["docker", "run", "img", "b", "c"]);
}

#[test]
fn mcp_url_uses_host_and_port() {
    assert_eq!(
        ensure_default_mcp_url("host.docker.internal", 8080),
        "http://host.docker.internal:8080/mcp"
    );
    assert_eq!(ensure_default_mcp_url("h", 0), "http://h:0/mcp");
}

#[test]
fn docker_host_follows_context() {
    assert_eq!(default_docker_host(Some("orbstack\n")), "host.orb.internal");
    assert_eq!(default_docker_host(Some("desktop-linux")), "host.docker.internal");
    assert_eq!(default_docker_host(None), "host.docker.internal");
}
