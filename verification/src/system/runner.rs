//! The command lines of a Codex run: the `docker run` that starts a
//! persona's container and the `codex exec` run inside it.

use vstd::prelude::*;

use crate::paths::{join, join_str};
use crate::shared::codex_exec::{
    codex_args, empty_spec, head_args, lemma_codex_args_parts, lemma_repeated_arg_index, CodexExecBuilder,
    CodexExecSpec,
};
use crate::shared::cmdline::repeated_arg;
use crate::models::{AgentModelOverrides, AgentReasoningOverrides};
use crate::shared::docker::{
    docker_args, ensure_default_mcp_url, image_spec, mcp_url, DockerRunBuilder, DockerRunSpec,
};
use crate::system::codex_config::{model_of, reasoning_of, AgentKind, CodexSettings};
use crate::models::{model_label, reasoning_label, ModelName, ReasoningEffort};
use crate::text::{chars_of, i64_to_string, owned, push_str_chars, signed_decimal, string_of, strings_view};

verus! {

/// Who a run is for.
#[derive(Debug, Clone, Copy, PartialEq, Eq, Structural)]
pub enum Persona {
    Orchestrator,
    Worker(i64),
}

/// How runs reach the server.
#[derive(Debug, Clone, Copy, PartialEq, Eq, Structural)]
pub struct RunnerConfig {
    pub api_port: Option<u16>,
}

impl Default for RunnerConfig {
    /// The server on port 8080.
    fn default() -> (r: Self)
        ensures
            r.api_port == Some(8080u16),
    {
        RunnerConfig { api_port: Some(8080) }
    }
}

/// What a run depends on beyond its persona: the project directory, the
/// images of the two personas, the host's home directory (`HOME`, when
/// set), and the host name containers reach the server under.
#[derive(Debug, Clone)]
pub struct RunnerEnvironment {
    pub project_dir: String,
    pub orchestrator_image: String,
    pub worker_image: String,
    pub home: Option<String>,
    pub docker_host: String,
}

/// The two command lines of a run.
pub struct CommandPlan {
    pub docker_args: Vec<String>,
    pub codex_args: Vec<String>,
}

/// The settings persona `p` is launched with.
pub open spec fn agent_kind(p: Persona) -> AgentKind {
    match p {
        Persona::Orchestrator => AgentKind::Orchestrator,
        Persona::Worker(_) => AgentKind::Worker,
    }
}

/// How a persona introduces itself to the MCP server, and the worktree it
/// works in: `orchestrator` in `staging`, `ws<id>` in its own.
pub open spec fn agent_label(p: Persona) -> Seq<char> {
    match p {
        Persona::Orchestrator => "orchestrator"@,
        Persona::Worker(id) => "ws"@ + signed_decimal(id as int),
    }
}

/// The worktree directory of persona `p` under the project directory.
pub open spec fn worktree_dir(p: Persona) -> Seq<char> {
    match p {
        Persona::Orchestrator => "staging"@,
        Persona::Worker(id) => "ws"@ + signed_decimal(id as int),
    }
}

/// The configuration overrides of a run: the Robot Farm MCP server at
/// `url`, announced as `label`, and the model and reasoning level.
pub open spec fn run_overrides(
    url: Seq<char>,
    label: Seq<char>,
    model: Seq<char>,
    reasoning: Seq<char>,
) -> Seq<Seq<char>> {
    seq![
        "mcp_servers.robot_farm.enabled=true"@,
        "mcp_servers.robot_farm.tool_timeout_sec=900"@,
        "mcp_servers.robot_farm.url=\""@ + url + "\""@,
        "mcp_servers.robot_farm.http_headers={\"Agent\"=\""@ + label + "\"}"@,
        "model=\""@ + model + "\""@,
        "model_reasoning_effort=\""@ + reasoning + "\""@,
    ]
}

/// The `codex exec` options of a run: resuming `session` when given, JSON
/// output, the Robot Farm output schema, the overrides, in `/workspace`.
pub open spec fn codex_plan(session: Option<Seq<char>>, overrides: Seq<Seq<char>>) -> CodexExecSpec {
    let base = match session {
        Some(id) => CodexExecSpec { session_id: Some(id), ..empty_spec(true) },
        None => empty_spec(false),
    };
    CodexExecSpec {
        json: true,
        output_schema: Some("/opt/robot-farm/schema.json"@),
        config_overrides: overrides,
        change_dir: Some("/workspace"@),
        ..base
    }
}

/// The `docker run` options of a run: the image, removed on exit,
/// interactive with standard output and error attached, as user
/// `1000:1000` in `/workspace`, with the worktree and the host's Codex home
/// mounted read-write.
pub open spec fn docker_plan(image: Seq<char>, worktree: Seq<char>, codex_home: Seq<char>) -> DockerRunSpec {
    DockerRunSpec {
        remove_container: true,
        interactive: true,
        attach_streams: seq!["STDOUT"@, "STDERR"@],
        user: Some("1000:1000"@),
        workdir: Some("/workspace"@),
        volumes: seq![
            (worktree, "/workspace"@, Some("rw"@)),
            (codex_home, "/home/codex/.codex"@, Some("rw"@)),
        ],
        env_vars: seq![
            ("CODEX_NO_COLOR"@, "1"@),
            ("HOME"@, "/home/codex"@),
            ("CODEX_HOME"@, "/home/codex/.codex"@),
            ("PWD"@, "/workspace"@),
        ],
        ..image_spec(image)
    }
}

/// The host's Codex home: `.codex` under `HOME`, or under the current
/// directory when `HOME` is not set.
pub open spec fn host_codex_home(home: Option<Seq<char>>) -> Seq<char> {
    join(
        match home {
            Some(h) => h,
            None => "."@,
        },
        ".codex"@,
    )
}

/// `args` passes `-c v`.
pub open spec fn passes_override(args: Seq<Seq<char>>, v: Seq<char>) -> bool {
    exists|i: int| 0 <= i && i + 1 < args.len() && #[trigger] args[i] == "-c"@ && args[i + 1] == v
}

/// The model override naming `model`.
pub open spec fn model_override(model: ModelName) -> Seq<char> {
    "model=\""@ + model_label(model) + "\""@
}

/// The reasoning override naming `effort`.
pub open spec fn reasoning_override(effort: ReasoningEffort) -> Seq<char> {
    "model_reasoning_effort=\""@ + reasoning_label(effort) + "\""@
}

/// A run carries the settings of its own persona: the orchestrator's run
/// passes the orchestrator's configured model and reasoning level, and a
/// worker's run the workers'.
pub proof fn lemma_run_uses_persona_settings(
    persona: Persona,
    session: Option<Seq<char>>,
    url: Seq<char>,
    models: AgentModelOverrides,
    reasoning: AgentReasoningOverrides,
)
    ensures
        ({
            let args = codex_args(
                codex_plan(
                    session,
                    run_overrides(
                        url,
                        agent_label(persona),
                        model_label(model_of(models, agent_kind(persona))),
                        reasoning_label(reasoning_of(reasoning, agent_kind(persona))),
                    ),
                ),
            );
            &&& persona == Persona::Orchestrator ==> passes_override(
                args,
                model_override(models.orchestrator),
            ) && passes_override(args, reasoning_override(reasoning.orchestrator))
            &&& persona is Worker ==> passes_override(args, model_override(models.worker))
                && passes_override(args, reasoning_override(reasoning.worker))
        }),
{
    let ov = run_overrides(
        url,
        agent_label(persona),
        model_label(model_of(models, agent_kind(persona))),
        reasoning_label(reasoning_of(reasoning, agent_kind(persona))),
    );
    let b = codex_plan(session, ov);
    lemma_codex_args_parts(b);
    lemma_repeated_arg_index("-c"@, ov, 4);
    lemma_repeated_arg_index("-c"@, ov, 5);
    let args = codex_args(b);
    let h = head_args(b);
    let r = repeated_arg("-c"@, ov);
    let k = h.len() as int;
    assert(args[k + 8] == r[8]);
    assert(args[k + 9] == r[9]);
    assert(args[k + 10] == r[10]);
    assert(args[k + 11] == r[11]);
    assert(passes_override(args, ov[4]));
    assert(passes_override(args, ov[5]));
}

fn persona_label(p: Persona) -> (r: String)
    ensures
        r@ == agent_label(p),
{
    match p {
        Persona::Orchestrator => owned("orchestrator"),
        Persona::Worker(id) => {
            let mut v = chars_of("ws");
            push_str_chars(&mut v, i64_to_string(id).as_str());
            string_of(&v)
        },
    }
}

fn quoted(prefix: &str, value: &str, suffix: &str) -> (r: String)
    ensures
        r@ == prefix@ + value@ + suffix@,
{
    let mut v = chars_of(prefix);
    push_str_chars(&mut v, value);
    push_str_chars(&mut v, suffix);
    string_of(&v)
}

/// The command lines of a Codex run for `persona`, resuming `session_id`
/// when given, with the launch settings of `settings`.
pub fn plan_codex_run(
    persona: Persona,
    session_id: Option<&str>,
    config: RunnerConfig,
    settings: &CodexSettings,
    env: &RunnerEnvironment,
) -> (r: CommandPlan)
    ensures
        ({
            let kind = agent_kind(persona);
            let port: nat = match config.api_port {
                Some(p) => p as nat,
                None => 8080,
            };
            let overrides = run_overrides(
                mcp_url(env.docker_host@, port),
                agent_label(persona),
                model_label(model_of(settings.models, kind)),
                reasoning_label(reasoning_of(settings.reasoning, kind)),
            );
            strings_view(r.codex_args@) == codex_args(
                codex_plan(
                    match session_id {
                        Some(s) => Some(s@),
                        None => None,
                    },
                    overrides,
                ),
            )
        }),
        persona == Persona::Orchestrator ==> passes_override(
            strings_view(r.codex_args@),
            model_override(settings.models.orchestrator),
        ) && passes_override(
            strings_view(r.codex_args@),
            reasoning_override(settings.reasoning.orchestrator),
        ),
        persona is Worker ==> passes_override(
            strings_view(r.codex_args@),
            model_override(settings.models.worker),
        ) && passes_override(strings_view(r.codex_args@), reasoning_override(settings.reasoning.worker)),
        strings_view(r.docker_args@) == docker_args(
            docker_plan(
                match persona {
                    Persona::Orchestrator => env.orchestrator_image@,
                    Persona::Worker(_) => env.worker_image@,
                },
                join(env.project_dir@, worktree_dir(persona)),
                host_codex_home(
                    match env.home {
                        Some(h) => Some(h@),
                        None => None,
                    },
                ),
            ),
        ),
{
    let codex = match session_id {
        Some(id) => CodexExecBuilder::resume().session_id(id),
        None => CodexExecBuilder::new(),
    };
    let kind = match persona {
        Persona::Orchestrator => AgentKind::Orchestrator,
        Persona::Worker(_) => AgentKind::Worker,
    };
    let label = persona_label(persona);
    let launch = settings.settings_for(kind);
    let api_port: u16 = match config.api_port {
        Some(p) => p,
        None => 8080,
    };
    let url = ensure_default_mcp_url(env.docker_host.as_str(), api_port);
    let o_url = quoted("mcp_servers.robot_farm.url=\"", url.as_str(), "\"");
    let o_agent = quoted(
        "mcp_servers.robot_farm.http_headers={\"Agent\"=\"",
        label.as_str(),
        "\"}",
    );
    let o_model = quoted("model=\"", launch.model.as_str(), "\"");
    let o_reasoning = quoted("model_reasoning_effort=\"", launch.reasoning.as_str(), "\"");
    let codex = codex.json(true).output_schema("/opt/robot-farm/schema.json").config_override(
        "mcp_servers.robot_farm.enabled=true",
    ).config_override("mcp_servers.robot_farm.tool_timeout_sec=900").config_override(
        o_url.as_str(),
    ).config_override(o_agent.as_str()).config_override(o_model.as_str()).config_override(
        o_reasoning.as_str(),
    ).change_dir("/workspace");
    let ghost overrides = run_overrides(
        url@,
        label@,
        launch.model@,
        launch.reasoning@,
    );
    assert(codex@.config_overrides =~= overrides);
    let worktree = match persona {
        Persona::Orchestrator => join_str(env.project_dir.as_str(), "staging"),
        Persona::Worker(_) => join_str(env.project_dir.as_str(), label.as_str()),
    };
    let home = match &env.home {
        Some(h) => owned(h.as_str()),
        None => owned("."),
    };
    let codex_home = join_str(home.as_str(), ".codex");
    let image = match persona {
        Persona::Orchestrator => env.orchestrator_image.as_str(),
        Persona::Worker(_) => env.worker_image.as_str(),
    };
    let docker = DockerRunBuilder::new(image).remove_container(true).interactive(true).attach(
        "STDOUT",
    ).attach("STDERR").user("1000:1000").workdir("/workspace").volume(
        worktree.as_str(),
        "/workspace",
        Some(owned("rw")),
    ).volume(codex_home.as_str(), "/home/codex/.codex", Some(owned("rw"))).env(
        "CODEX_NO_COLOR",
        "1",
    ).env("HOME", "/home/codex").env("CODEX_HOME", "/home/codex/.codex").env("PWD", "/workspace");
    let ghost want = docker_plan(image@, worktree@, codex_home@);
    assert(docker@.attach_streams =~= want.attach_streams);
    assert(docker@.volumes =~= want.volumes);
    assert(docker@.env_vars =~= want.env_vars);
    assert(docker@ == want);
    proof {
        let port: nat = match config.api_port {
            Some(p) => p as nat,
            None => 8080,
        };
        lemma_run_uses_persona_settings(
            persona,
            match session_id {
                Some(s) => Some(s@),
                None => None,
            },
            mcp_url(env.docker_host@, port),
            settings.models,
            settings.reasoning,
        );
    }
    CommandPlan { docker_args: docker.build(), codex_args: codex.build() }
}

} // verus!
