//! The task wizard: the command line of its Codex run, how its JSON event
//! stream is cut into lines, and how its answers are summarized for the
//! feed.

use vstd::prelude::*;
use vstd::utf8::{decode_utf8, valid_utf8};

use crate::bytes::{byte_position_from, lemma_first_byte_index, slice_bytes, utf8_chars};
use crate::models::{model_label, reasoning_label, FeedLevel};
use crate::shared::codex_exec::{codex_args, empty_spec, CodexExecBuilder, CodexExecSpec};
use crate::shared::docker::{docker_args, image_spec, mcp_url, ensure_default_mcp_url, DockerRunBuilder, DockerRunSpec};
use crate::system::codex_config::{model_of, reasoning_of, AgentKind, CodexSettings};
use crate::system::docker_overrides::{with_overrides, OverridesStore};
use crate::text::{chars_of, owned, parse_u16, parse_unsigned, push_str_chars, push_string, string_of, strings_view, trim, trim_chars};
use crate::threads::post_turn::{exit_code_text, push_exit_code, NewFeedEntry};
use crate::threads::process_manager::{complete_lines, leftover, lemma_lines_append, ChildEnd};

verus! {

/// Why the wizard could not start a turn.
#[derive(Debug)]
pub enum TaskWizardError {
    /// A turn is already running.
    Busy,
    /// The run could not be started; why.
    SpawnFailed(String),
}

/// The message of a wizard error.
pub open spec fn wizard_error_text(e: TaskWizardError) -> Seq<char> {
    match e {
        TaskWizardError::Busy => "Wizard is already running a turn."@,
        TaskWizardError::SpawnFailed(m) => m@,
    }
}

impl TaskWizardError {
    /// The message shown to the user.
    pub fn as_str(&self) -> (r: &str)
        ensures
            r@ == wizard_error_text(*self),
    {
        match self {
            TaskWizardError::Busy => "Wizard is already running a turn.",
            TaskWizardError::SpawnFailed(msg) => msg.as_str(),
        }
    }
}

/// The most characters of an answer shown in the feed.
pub const SUMMARY_LIMIT: usize = 160;

/// An answer as shown in the feed: whole when it has at most 160
/// characters, otherwise its first 160 followed by an ellipsis.
pub open spec fn summary_of(text: Seq<char>) -> Seq<char> {
    if text.len() <= SUMMARY_LIMIT {
        text
    } else {
        text.take(SUMMARY_LIMIT as int).push('\u{2026}')
    }
}

/// An answer as shown in the feed.
pub fn summarize(text: &str) -> (r: String)
    ensures
        r@ == summary_of(text@),
{
    let v = chars_of(text);
    if v.len() <= SUMMARY_LIMIT {
        owned(text)
    } else {
        let mut head = crate::text::slice_chars(&v, 0, SUMMARY_LIMIT);
        head.push('\u{2026}');
        assert(head@ =~= text@.take(SUMMARY_LIMIT as int).push('\u{2026}'));
        string_of(&head)
    }
}

/// The answer of a successful turn: the agent's last message, or a fixed
/// sentence when it sent none.
pub fn completion_summary(last_agent_message: Option<&str>) -> (r: String)
    ensures
        r@ == match last_agent_message {
            Some(m) => m@,
            None => "Wizard completed without a final message."@,
        },
{
    match last_agent_message {
        Some(m) => owned(m),
        None => owned("Wizard completed without a final message."),
    }
}

/// The feed entry of a wizard turn: from `TaskWizard` to `User`, an error
/// when the turn failed, showing the summarized answer.
pub fn task_wizard_feed_entry(response: &str, success: bool, raw: String) -> (r: NewFeedEntry)
    ensures
        r.source@ == "TaskWizard"@,
        r.target@ == "User"@,
        r.level == (if success {
            FeedLevel::Info
        } else {
            FeedLevel::Error
        }),
        r.text@ == summary_of(response@),
        r.raw@ == raw@,
        r.category@ == "task_wizard"@,
{
    NewFeedEntry {
        source: owned("TaskWizard"),
        target: owned("User"),
        level: if success {
            FeedLevel::Info
        } else {
            FeedLevel::Error
        },
        text: summarize(response),
        raw,
        category: owned("task_wizard"),
    }
}

/// The server's port: `PORT` when it holds a port number, else
/// `ROBOT_FARM_API_PORT` when it does, else 8080.
pub open spec fn api_port(port_env: Option<Seq<char>>, legacy_env: Option<Seq<char>>) -> u16 {
    let first = match port_env {
        Some(v) => parse_unsigned(v, u16::MAX as nat),
        None => None,
    };
    let second = match legacy_env {
        Some(v) => parse_unsigned(v, u16::MAX as nat),
        None => None,
    };
    match first {
        Some(p) => p as u16,
        None => match second {
            Some(p) => p as u16,
            None => 8080,
        },
    }
}

fn port_of(value: Option<&str>) -> (r: Option<u16>)
    ensures
        match r {
            Some(p) => match value {
                Some(v) => parse_unsigned(v@, u16::MAX as nat) == Some(p as nat),
                None => false,
            },
            None => match value {
                Some(v) => parse_unsigned(v@, u16::MAX as nat) is None,
                None => true,
            },
        },
{
    match value {
        Some(v) => parse_u16(&chars_of(v)),
        None => None,
    }
}

/// The server's port, from the values of `PORT` and `ROBOT_FARM_API_PORT`
/// when set.
pub fn resolve_api_port(port_env: Option<&str>, legacy_env: Option<&str>) -> (r: u16)
    ensures
        r == api_port(
            match port_env {
                Some(v) => Some(v@),
                None => None,
            },
            match legacy_env {
                Some(v) => Some(v@),
                None => None,
            },
        ),
{
    match port_of(port_env) {
        Some(p) => p,
        None => match port_of(legacy_env) {
            Some(p) => p,
            None => 8080,
        },
    }
}

// ---------------------------------------------------------------------------
// The wizard's command line
// ---------------------------------------------------------------------------

/// What the wizard's run depends on beyond the turn: its image, the host's
/// home directory (`HOME`, when set) and the host name containers reach
/// the server under.
#[derive(Debug, Clone)]
pub struct WizardEnvironment {
    pub image: String,
    pub home: Option<String>,
    pub docker_host: String,
}

/// The MCP tools the wizard may use, as a configuration override.
pub open spec fn wizard_tools() -> Seq<char> {
    "mcp_servers.robot_farm.enabled_tools=[\"tasks_list\",\"tasks_get\",\"tasks_create\",\"tasks_update\",\"tasks_set_status\",\"task_groups_list\",\"task_groups_get\",\"task_groups_create\",\"task_dependencies_get\",\"task_dependencies_set\"]"@
}

/// The `codex exec` options of a wizard turn: resuming `thread` when
/// given, in `/workspace`, JSON output, the wizard's MCP tools at `url`,
/// its model and reasoning level, without the git repository check.
pub open spec fn wizard_codex_plan(
    thread: Option<Seq<char>>,
    url: Seq<char>,
    model: Seq<char>,
    reasoning: Seq<char>,
) -> CodexExecSpec {
    let base = match thread {
        Some(id) => CodexExecSpec { session_id: Some(id), ..empty_spec(true) },
        None => empty_spec(false),
    };
    CodexExecSpec {
        change_dir: Some("/workspace"@),
        json: true,
        config_overrides: seq![
            "mcp_servers.robot_farm.enabled=true"@,
            "mcp_servers.robot_farm.tool_timeout_sec=900"@,
            wizard_tools(),
            "mcp_servers.robot_farm.url=\""@ + url + "\""@,
            "mcp_servers.robot_farm.http_headers.AGENT=\"wizard\""@,
            "model=\""@ + model + "\""@,
            "model_reasoning_effort=\""@ + reasoning + "\""@,
        ],
        skip_git_repo_check: true,
        ..base
    }
}

/// The `docker run` options of a wizard turn: the wizard image running the
/// Codex command line `command`, removed on exit, interactive with standard
/// output and error attached, as user `1000:1000` in `/workspace`, with the
/// turn's workspace mounted read-write and the host's Codex home
/// (`<home>/.codex`) mounted.
pub open spec fn wizard_docker_plan(
    image: Seq<char>,
    command: Seq<Seq<char>>,
    workspace: Seq<char>,
    home: Seq<char>,
) -> DockerRunSpec {
    DockerRunSpec {
        remove_container: true,
        interactive: true,
        attach_streams: seq!["STDOUT"@, "STDERR"@],
        user: Some("1000:1000"@),
        workdir: Some("/workspace"@),
        command: Some(command),
        volumes: seq![
            (workspace, "/workspace"@, Some("rw"@)),
            (home + "/.codex"@, "/home/codex/.codex"@, None),
        ],
        ..image_spec(image)
    }
}

fn quoted(prefix: &str, value: &str, suffix: &str) -> (r: String)
    ensures
        r@ == prefix@ + value@ + suffix@,
{
    let mut v = chars_of(prefix);
    push_str_chars(&mut v, value);
    push_str_chars(&mut v, suffix);
    string_of(&v)
}

/// The command line of a wizard turn in `workspace`, resuming `thread_id`
/// when given, with the wizard's extra Docker arguments inserted before the
/// image.
pub fn build_task_wizard_command(
    api_port: u16,
    thread_id: Option<&str>,
    workspace: &str,
    settings: &CodexSettings,
    overrides: &OverridesStore,
    env: &WizardEnvironment,
) -> (r: Vec<String>)
    ensures
        ({
            let codex = wizard_codex_plan(
                match thread_id {
                    Some(t) => Some(t@),
                    None => None,
                },
                mcp_url(env.docker_host@, api_port as nat),
                model_label(model_of(settings.models, AgentKind::Wizard)),
                reasoning_label(reasoning_of(settings.reasoning, AgentKind::Wizard)),
            );
            let docker = wizard_docker_plan(
                env.image@,
                codex_args(codex),
                workspace@,
                match env.home {
                    Some(h) => h@,
                    None => "/home/codex"@,
                },
            );
            strings_view(r@) == with_overrides(
                docker_args(docker),
                overrides.overrides_spec(AgentKind::Wizard),
                env.image@,
            )
        }),
{
    let builder = match thread_id {
        Some(id) => CodexExecBuilder::resume().session_id(id),
        None => CodexExecBuilder::new(),
    };
    let launch = settings.settings_for(AgentKind::Wizard);
    let url = ensure_default_mcp_url(env.docker_host.as_str(), api_port);
    let o_url = quoted("mcp_servers.robot_farm.url=\"", url.as_str(), "\"");
    let o_model = quoted("model=\"", launch.model.as_str(), "\"");
    let o_reasoning = quoted("model_reasoning_effort=\"", launch.reasoning.as_str(), "\"");
    let tools = "mcp_servers.robot_farm.enabled_tools=[\"tasks_list\",\"tasks_get\",\"tasks_create\",\"tasks_update\",\"tasks_set_status\",\"task_groups_list\",\"task_groups_get\",\"task_groups_create\",\"task_dependencies_get\",\"task_dependencies_set\"]";
    let codex = builder.change_dir("/workspace").json(true).config_override(
        "mcp_servers.robot_farm.enabled=true",
    ).config_override("mcp_servers.robot_farm.tool_timeout_sec=900").config_override(
        tools,
    ).config_override(o_url.as_str()).config_override(
        "mcp_servers.robot_farm.http_headers.AGENT=\"wizard\"",
    ).config_override(o_model.as_str()).config_override(o_reasoning.as_str()).skip_git_repo_check(
        true,
    );
    let ghost want_codex = wizard_codex_plan(
        match thread_id {
            Some(t) => Some(t@),
            None => None,
        },
        url@,
        launch.model@,
        launch.reasoning@,
    );
    assert(codex@.config_overrides =~= want_codex.config_overrides);
    assert(codex@ == want_codex);
    let codex_line = codex.build();
    let home = match &env.home {
        Some(h) => owned(h.as_str()),
        None => owned("/home/codex"),
    };
    let mut codex_home = chars_of(home.as_str());
    push_str_chars(&mut codex_home, "/.codex");
    let codex_home = string_of(&codex_home);
    let ghost command_view = strings_view(codex_line@);
    let docker = DockerRunBuilder::new(env.image.as_str()).remove_container(true).interactive(
        true,
    ).attach("STDOUT").attach("STDERR").user("1000:1000").workdir("/workspace").command(
        codex_line,
    ).volume(workspace, "/workspace", Some(owned("rw"))).volume(
        codex_home.as_str(),
        "/home/codex/.codex",
        None,
    );
    let ghost want = wizard_docker_plan(env.image@, command_view, workspace@, home@);
    assert(docker@.attach_streams =~= want.attach_streams);
    assert(docker@.volumes =~= want.volumes);
    assert(docker@ == want);
    let mut args = docker.build();
    overrides.apply_overrides(AgentKind::Wizard, &mut args, env.image.as_str());
    args
}

// ---------------------------------------------------------------------------
// The wizard's event stream
// ---------------------------------------------------------------------------

/// A line without one trailing carriage return.
pub open spec fn without_cr(line: Seq<u8>) -> Seq<u8> {
    if line.len() > 0 && line.last() == 13 {
        line.drop_last()
    } else {
        line
    }
}

/// The text of a line of the event stream: kept when it is valid UTF-8 and
/// not blank (untrimmed).
pub open spec fn json_line(line: Seq<u8>) -> Option<Seq<char>> {
    let l = without_cr(line);
    if valid_utf8(l) && trim(decode_utf8(l)).len() > 0 {
        Some(decode_utf8(l))
    } else {
        None
    }
}

/// The texts kept of the lines `ls`, in order.
pub open spec fn json_lines(ls: Seq<Seq<u8>>) -> Seq<Seq<char>>
    decreases ls.len(),
{
    if ls.len() == 0 {
        Seq::empty()
    } else {
        (match json_line(ls[0]) {
            Some(t) => seq![t],
            None => Seq::empty(),
        }) + json_lines(ls.drop_first())
    }
}

/// The texts kept of `a + b` are those of `a`, then those of `b`.
pub proof fn lemma_json_lines_append(a: Seq<Seq<u8>>, b: Seq<Seq<u8>>)
    ensures
        json_lines(a + b) == json_lines(a) + json_lines(b),
    decreases a.len(),
{
    if a.len() == 0 {
        assert(a + b =~= b);
        assert(json_lines(a) + json_lines(b) =~= json_lines(b));
    } else {
        assert((a + b)[0] == a[0]);
        assert((a + b).drop_first() =~= a.drop_first() + b);
        lemma_json_lines_append(a.drop_first(), b);
        let head: Seq<Seq<char>> = match json_line(a[0]) {
            Some(t) => seq![t],
            None => Seq::empty(),
        };
        assert(head + (json_lines(a.drop_first()) + json_lines(b)) =~= (head + json_lines(
            a.drop_first(),
        )) + json_lines(b));
    }
}

/// The chunks `cs` laid end to end.
pub open spec fn concat_chunks(cs: Seq<Seq<u8>>) -> Seq<u8>
    decreases cs.len(),
{
    if cs.len() == 0 {
        Seq::empty()
    } else {
        concat_chunks(cs.drop_last()) + cs.last()
    }
}

/// What a fresh buffer fed the chunks `cs` one after the other hands back,
/// laid end to end, and what it holds afterwards (as `ingest` states).
pub open spec fn ingest_all(cs: Seq<Seq<u8>>) -> (Seq<Seq<char>>, Seq<u8>)
    decreases cs.len(),
{
    if cs.len() == 0 {
        (Seq::empty(), Seq::empty())
    } else {
        let (ls, rest) = ingest_all(cs.drop_last());
        (ls + json_lines(complete_lines(rest + cs.last())), leftover(rest + cs.last()))
    }
}

/// Feeding a buffer in two chunks gives the same lines, and leaves the same
/// bytes, as feeding it both at once.
pub proof fn lemma_ingest_two_chunks(held: Seq<u8>, a: Seq<u8>, b: Seq<u8>)
    ensures
        json_lines(complete_lines(held + a)) + json_lines(complete_lines(leftover(held + a) + b))
            == json_lines(complete_lines(held + (a + b))),
        leftover(leftover(held + a) + b) == leftover(held + (a + b)),
{
    assert(held + (a + b) =~= (held + a) + b);
    lemma_lines_append(held + a, b);
    lemma_json_lines_append(complete_lines(held + a), complete_lines(leftover(held + a) + b));
}

/// However a byte string is cut into chunks, a fresh buffer fed them one
/// after the other hands back the same lines as when fed the whole string
/// at once, and is left holding the same bytes: those after the string's
/// last newline (all of it when it has none).
pub proof fn lemma_ingest_any_chunking(cs: Seq<Seq<u8>>)
    ensures
        ingest_all(cs) == (json_lines(complete_lines(concat_chunks(cs))), leftover(
            concat_chunks(cs),
        )),
    decreases cs.len(),
{
    if cs.len() == 0 {
        lemma_first_byte_index(Seq::<u8>::empty(), 10);
        assert(complete_lines(Seq::<u8>::empty()) =~= Seq::<Seq<u8>>::empty());
        assert(json_lines(Seq::<Seq<u8>>::empty()) =~= Seq::<Seq<char>>::empty());
    } else {
        lemma_ingest_any_chunking(cs.drop_last());
        let prev = concat_chunks(cs.drop_last());
        lemma_ingest_two_chunks(Seq::<u8>::empty(), prev, cs.last());
        assert(Seq::<u8>::empty() + prev =~= prev);
        assert(Seq::<u8>::empty() + (prev + cs.last()) =~= concat_chunks(cs));
    }
}

/// Cuts the wizard's standard output into lines of JSON.
pub struct JsonLineBuffer {
    buffer: Vec<u8>,
}

impl JsonLineBuffer {
    /// The bytes after the last newline seen.
    pub closed spec fn buffered(&self) -> Seq<u8> {
        self.buffer@
    }

    /// A buffer that has seen nothing.
    pub fn new() -> (r: Self)
        ensures
            r.buffered() == Seq::<u8>::empty(),
    {
        JsonLineBuffer { buffer: Vec::new() }
    }

    /// Takes in a chunk; returns the texts of the lines it completes.
    pub fn ingest(&mut self, chunk: &[u8]) -> (r: Vec<String>)
        ensures
            strings_view(r@) == json_lines(complete_lines(old(self).buffered() + chunk@)),
            final(self).buffered() == leftover(old(self).buffered() + chunk@),
    {
        let ghost all = self.buffer@ + chunk@;
        crate::bytes::extend_bytes(&mut self.buffer, chunk);
        let mut lines: Vec<String> = Vec::new();
        assert(strings_view(lines@) + json_lines(complete_lines(self.buffer@)) =~= json_lines(
            complete_lines(all),
        ));
        loop
            invariant
                strings_view(lines@) + json_lines(complete_lines(self.buffer@)) == json_lines(
                    complete_lines(all),
                ),
                leftover(self.buffer@) == leftover(all),
            ensures
                strings_view(lines@) == json_lines(complete_lines(all)),
                self.buffer@ == leftover(all),
            decreases self.buffer@.len(),
        {
            let ghost b = self.buffer@;
            proof {
                lemma_first_byte_index(b, 10);
            }
            let pos = match byte_position_from(self.buffer.as_slice(), 0, 10) {
                Some(p) => p,
                None => {
                    assert(b.skip(0) =~= b);
                    assert(complete_lines(b) =~= Seq::<Seq<u8>>::empty());
                    assert(strings_view(lines@) + json_lines(Seq::<Seq<u8>>::empty())
                        =~= strings_view(lines@));
                    break;
                },
            };
            assert(b.skip(0) =~= b);
            let n = self.buffer.len();
            let mut line = slice_bytes(self.buffer.as_slice(), 0, pos);
            let rest = slice_bytes(self.buffer.as_slice(), pos + 1, n);
            assert(line@ =~= b.take(pos as int));
            assert(rest@ =~= b.skip(pos + 1));
            let ghost raw = line@;
            if line.len() > 0 && line[line.len() - 1] == 13u8 {
                line.pop();
            }
            assert(line@ =~= without_cr(raw));
            let ghost before = strings_view(lines@);
            let ghost ls = complete_lines(b);
            assert(ls =~= seq![b.take(pos as int)] + complete_lines(rest@));
            assert(ls[0] == raw);
            assert(ls.drop_first() =~= complete_lines(rest@));
            match utf8_chars(line.as_slice()) {
                Some(text) => {
                    if trim_chars(&text).len() > 0 {
                        push_string(&mut lines, string_of(&text));
                    }
                },
                None => {},
            }
            assert(before + json_lines(ls) =~= strings_view(lines@) + json_lines(
                complete_lines(rest@),
            ));
            self.buffer = rest;
        }
        lines
    }

    /// Ends the stream: the text after the last newline, trimmed, when it
    /// is valid UTF-8 and not blank.
    pub fn flush(&mut self) -> (r: Option<String>)
        ensures
            final(self).buffered() == Seq::<u8>::empty(),
            match r {
                Some(t) => old(self).buffered().len() > 0 && valid_utf8(old(self).buffered())
                    && t@ == trim(decode_utf8(old(self).buffered())) && t@.len() > 0,
                None => old(self).buffered().len() == 0 || !valid_utf8(old(self).buffered())
                    || trim(decode_utf8(old(self).buffered())).len() == 0,
            },
    {
        if self.buffer.len() == 0 {
            return None;
        }
        let mut taken: Vec<u8> = Vec::new();
        std::mem::swap(&mut taken, &mut self.buffer);
        match utf8_chars(taken.as_slice()) {
            Some(text) => {
                let t = trim_chars(&text);
                if t.len() == 0 {
                    None
                } else {
                    Some(string_of(&t))
                }
            },
            None => None,
        }
    }
}

/// How a wizard run ended, as reported to the session.
#[derive(Debug)]
pub enum RunCompletionStatus {
    Success,
    Failed(String),
    Killed,
}

/// Why a wizard run that exited with `code` failed.
pub open spec fn wizard_exit_failure(code: Option<i32>) -> Seq<char> {
    "Task wizard exited with code "@ + exit_code_text(code)
}

/// The status of a wizard run that ended as `end`: success when it exited
/// with code 0, killed when it was killed, and otherwise failed, with the
/// exit code or the message of the failure.
pub fn completion_status<K>(end: ChildEnd<K>) -> (r: RunCompletionStatus)
    ensures
        match end {
            ChildEnd::Exited(code) => if code == Some(0i32) {
                r matches RunCompletionStatus::Success
            } else {
                (r matches RunCompletionStatus::Failed(m) && m@ == wizard_exit_failure(code))
            },
            ChildEnd::Killed(_) => r matches RunCompletionStatus::Killed,
            ChildEnd::WaitFailed(m) => (r matches RunCompletionStatus::Failed(f) && f@ == m@),
        },
{
    match end {
        ChildEnd::Exited(code) => {
            if code == Some(0i32) {
                RunCompletionStatus::Success
            } else {
                let mut v = chars_of("Task wizard exited with code ");
                push_exit_code(&mut v, code);
                RunCompletionStatus::Failed(string_of(&v))
            }
        },
        ChildEnd::Killed(_) => RunCompletionStatus::Killed,
        ChildEnd::WaitFailed(m) => RunCompletionStatus::Failed(m),
    }
}

/// A summary has at most 161 characters and begins with the answer's
/// first characters; an answer of at most 160 characters is its own
/// summary.
pub proof fn lemma_summary_bounds(text: Seq<char>)
    ensures
        summary_of(text).len() <= SUMMARY_LIMIT + 1,
        text.len() <= SUMMARY_LIMIT ==> summary_of(text) == text,
        text.len() > SUMMARY_LIMIT ==> summary_of(text).take(SUMMARY_LIMIT as int) == text.take(
            SUMMARY_LIMIT as int,
        ),
{
    if text.len() > SUMMARY_LIMIT {
        assert(summary_of(text).take(SUMMARY_LIMIT as int) =~= text.take(SUMMARY_LIMIT as int));
    }
}


// ---------------------------------------------------------------------------
// A wizard session
// ---------------------------------------------------------------------------

/// Why a prompt does not start a turn.
#[derive(Debug, Clone, Copy, PartialEq, Eq, Structural)]
pub enum StartRefusal {
    /// The prompt is blank.
    EmptyPrompt,
    /// A turn is already running.
    Busy,
}

impl StartRefusal {
    /// The message shown to the user.
    pub fn message(&self) -> (r: &'static str)
        ensures
            r@ == (match *self {
                StartRefusal::EmptyPrompt => "Prompt cannot be empty"@,
                StartRefusal::Busy => "Wizard is already running a turn."@,
            }),
    {
        match self {
            StartRefusal::EmptyPrompt => "Prompt cannot be empty",
            StartRefusal::Busy => "Wizard is already running a turn.",
        }
    }
}

/// One user's conversation with the wizard: the Codex thread it continues,
/// and the run of the turn in progress.
pub struct WizardSession {
    thread_id: Option<String>,
    active_run: Option<u128>,
}

impl WizardSession {
    /// The Codex thread the next turn continues.
    pub closed spec fn thread(&self) -> Option<Seq<char>> {
        crate::text::opt_view(self.thread_id)
    }

    /// The run of the turn in progress.
    pub closed spec fn active(&self) -> Option<u128> {
        self.active_run
    }

    /// A new session: no thread, no turn.
    pub fn new() -> (r: Self)
        ensures
            r.thread() is None,
            r.active() is None,
    {
        WizardSession { thread_id: None, active_run: None }
    }

    /// Whether `prompt` may start a turn: not when blank, nor while a turn
    /// runs.
    pub fn check_start(&self, prompt: &str) -> (r: Result<(), StartRefusal>)
        ensures
            trim(prompt@).len() == 0 ==> r == Err::<(), StartRefusal>(StartRefusal::EmptyPrompt),
            trim(prompt@).len() > 0 && self.active() is Some ==> r == Err::<(), StartRefusal>(
                StartRefusal::Busy,
            ),
            trim(prompt@).len() > 0 && self.active() is None ==> r is Ok,
    {
        if trim_chars(&chars_of(prompt)).len() == 0 {
            Err(StartRefusal::EmptyPrompt)
        } else if self.active_run.is_some() {
            Err(StartRefusal::Busy)
        } else {
            Ok(())
        }
    }

    /// Notes that the turn's run `run_id` started.
    pub fn run_started(&mut self, run_id: u128)
        ensures
            final(self).active() == Some(run_id),
            final(self).thread() == old(self).thread(),
    {
        self.active_run = Some(run_id);
    }

    /// Notes that run `run_id` started Codex thread `thread_id`; kept only
    /// when `run_id` is the turn in progress. Whether it was kept.
    pub fn thread_started(&mut self, run_id: u128, thread_id: &str) -> (r: bool)
        ensures
            r == (old(self).active() == Some(run_id)),
            r ==> final(self).thread() == Some(thread_id@),
            !r ==> final(self).thread() == old(self).thread(),
            final(self).active() == old(self).active(),
    {
        if self.active_run == Some(run_id) {
            self.thread_id = Some(owned(thread_id));
            true
        } else {
            false
        }
    }

    /// Notes that run `run_id` ended; only the turn in progress ends the
    /// turn. Whether it did.
    pub fn run_completed(&mut self, run_id: u128) -> (r: bool)
        ensures
            r == (old(self).active() == Some(run_id)),
            r ==> final(self).active() is None,
            !r ==> final(self).active() == old(self).active(),
            final(self).thread() == old(self).thread(),
    {
        if self.active_run == Some(run_id) {
            self.active_run = None;
            true
        } else {
            false
        }
    }

    /// The run to kill when the user cancels, if a turn is in progress.
    pub fn cancel_target(&self) -> (r: Option<u128>)
        ensures
            r == self.active(),
    {
        self.active_run
    }

    /// Ends the session: returns the run to kill, if any, and forgets the
    /// thread.
    pub fn shutdown(&mut self) -> (r: Option<u128>)
        ensures
            r == old(self).active(),
            final(self).active() is None,
            final(self).thread() is None,
    {
        let r = self.active_run;
        self.active_run = None;
        self.thread_id = None;
        r
    }

    /// The Codex thread the next turn continues.
    pub fn thread_id(&self) -> (r: Option<String>)
        ensures
            crate::text::opt_view(r) == self.thread(),
    {
        match &self.thread_id {
            Some(t) => Some(owned(t.as_str())),
            None => None,
        }
    }
}

} // verus!
