//! Where the workspace configuration lives, which fields an older
//! configuration file lacks, and how configuration errors are answered.

use vstd::prelude::*;

use crate::models::{AgentModelOverrides, AgentReasoningOverrides};
use crate::system::codex_config::{
    default_models, default_reasoning, preferences_check, spec_default_models, spec_default_reasoning,
    validate_preferences,
};
use crate::system::dirty_staging::{action_named, DirtyStagingAction};
use crate::text::{chars_of, contains_string, owned, str_eq, push_str_chars, push_string, string_of, strings_view};

verus! {

/// The configuration directory of a workspace.
pub open spec fn config_dir_of(project_dir: Seq<char>) -> Seq<char> {
    project_dir + "/.robot-farm-rs"@
}

/// The configuration directory of a workspace: `.robot-farm-rs` in it.
pub fn config_dir(project_dir: &str) -> (r: String)
    ensures
        r@ == config_dir_of(project_dir@),
{
    let mut v = chars_of(project_dir);
    push_str_chars(&mut v, "/.robot-farm-rs");
    string_of(&v)
}

/// The database directory of a workspace: `db` in its configuration
/// directory.
pub fn db_dir(project_dir: &str) -> (r: String)
    ensures
        r@ == config_dir_of(project_dir@) + "/db"@,
{
    let mut v = chars_of(config_dir(project_dir).as_str());
    push_str_chars(&mut v, "/db");
    string_of(&v)
}

/// The configuration file of a workspace: `config.json` in its
/// configuration directory.
pub fn config_file_path(project_dir: &str) -> (r: String)
    ensures
        r@ == config_dir_of(project_dir@) + "/config.json"@,
{
    let mut v = chars_of(config_dir(project_dir).as_str());
    push_str_chars(&mut v, "/config.json");
    string_of(&v)
}

/// The fields added to the configuration since its first version, in the
/// order they are filled in.
pub open spec fn newer_fields() -> Seq<Seq<char>> {
    seq![
        "models"@,
        "reasoning"@,
        "docker_overrides"@,
        "dirty_staging_action"@,
        "on_staging_change"@,
        "persistent_threads"@,
        "ghost_commits"@,
        "drift_manager"@,
    ]
}

/// The newer fields that a configuration object with keys `present`
/// lacks, in order; each is filled in with its default, and the file is
/// written back when any was.
pub open spec fn missing_fields(present: Seq<Seq<char>>) -> Seq<Seq<char>> {
    newer_fields().filter(|f: Seq<char>| !present.contains(f))
}

/// The newer fields a configuration object with keys `present` lacks.
pub fn missing_config_fields(present: &Vec<String>) -> (r: Vec<String>)
    ensures
        strings_view(r@) == missing_fields(strings_view(present@)),
{
    let names: Vec<&str> = vec![
        "models",
        "reasoning",
        "docker_overrides",
        "dirty_staging_action",
        "on_staging_change",
        "persistent_threads",
        "ghost_commits",
        "drift_manager",
    ];
    let ghost all = newer_fields();
    assert(names@.map_values(|s: &str| s@) =~= all);
    let ghost f = |x: Seq<char>| !strings_view(present@).contains(x);
    let mut out: Vec<String> = Vec::new();
    let mut i: usize = 0;
    proof {
        reveal(Seq::filter);
        assert(all.take(0).filter(f) =~= Seq::<Seq<char>>::empty());
        assert(strings_view(out@) =~= Seq::<Seq<char>>::empty());
    }
    while i < names.len()
        invariant
            i <= names@.len(),
            names@.len() == all.len(),
            all == newer_fields(),
            forall|k: int| 0 <= k < names@.len() ==> names@[k]@ == #[trigger] all[k],
            f == (|x: Seq<char>| !strings_view(present@).contains(x)),
            strings_view(out@) == all.take(i as int).filter(f),
        decreases names@.len() - i,
    {
        let name = names[i];
        let ghost before = strings_view(out@);
        assert(all.take(i + 1) =~= all.take(i as int).push(all[i as int]));
        proof {
            all.take(i as int).lemma_filter_push(all[i as int], f);
        }
        if !contains_string(present, name) {
            push_string(&mut out, owned(name));
        }
        i = i + 1;
    }
    assert(all.take(i as int) =~= all);
    out
}

/// The value a configuration field starts with.
#[derive(Clone, Copy, PartialEq, Eq, Structural, Debug)]
pub enum FieldDefault {
    /// The default model of each persona.
    Models(AgentModelOverrides),
    /// The default reasoning level of each persona.
    Reasoning(AgentReasoningOverrides),
    /// No extra docker arguments for the orchestrator, workers or wizard.
    NoDockerOverrides,
    /// No agents files appended for the orchestrator or workers.
    NoAgentsFiles,
    /// This dirty-staging action.
    Action(DirtyStagingAction),
    /// The workspace's own directory.
    WorkspacePath,
    /// An empty list.
    EmptyList,
    /// This flag.
    Flag(bool),
}

/// The default of a field added since the first version of the
/// configuration; none for any other name.
pub open spec fn newer_default(field: Seq<char>) -> Option<FieldDefault> {
    if field == "models"@ {
        Some(FieldDefault::Models(spec_default_models()))
    } else if field == "reasoning"@ {
        Some(FieldDefault::Reasoning(spec_default_reasoning()))
    } else if field == "docker_overrides"@ {
        Some(FieldDefault::NoDockerOverrides)
    } else if field == "dirty_staging_action"@ {
        Some(FieldDefault::Action(DirtyStagingAction::Commit))
    } else if field == "on_staging_change"@ {
        Some(FieldDefault::EmptyList)
    } else if field == "persistent_threads"@ || field == "ghost_commits"@ || field
        == "drift_manager"@ {
        Some(FieldDefault::Flag(false))
    } else {
        None
    }
}

/// The default a missing newer field is filled in with.
pub fn default_field_value(field: &str) -> (r: Option<FieldDefault>)
    ensures
        r == newer_default(field@),
{
    if str_eq(field, "models") {
        Some(FieldDefault::Models(default_models()))
    } else if str_eq(field, "reasoning") {
        Some(FieldDefault::Reasoning(default_reasoning()))
    } else if str_eq(field, "docker_overrides") {
        Some(FieldDefault::NoDockerOverrides)
    } else if str_eq(field, "dirty_staging_action") {
        Some(FieldDefault::Action(DirtyStagingAction::Commit))
    } else if str_eq(field, "on_staging_change") {
        Some(FieldDefault::EmptyList)
    } else if str_eq(field, "persistent_threads") || str_eq(field, "ghost_commits") || str_eq(
        field,
        "drift_manager",
    ) {
        Some(FieldDefault::Flag(false))
    } else {
        None
    }
}

/// The fields of a new configuration, in order, with their defaults: the
/// workspace path, no agents files, no commands and no post-turn checks,
/// then every newer field with its default.
pub open spec fn initial_config() -> Seq<(Seq<char>, FieldDefault)> {
    seq![
        ("workspace_path"@, FieldDefault::WorkspacePath),
        ("append_agents_file"@, FieldDefault::NoAgentsFiles),
        ("commands"@, FieldDefault::EmptyList),
        ("post_turn_checks"@, FieldDefault::EmptyList),
        ("models"@, FieldDefault::Models(spec_default_models())),
        ("reasoning"@, FieldDefault::Reasoning(spec_default_reasoning())),
        ("docker_overrides"@, FieldDefault::NoDockerOverrides),
        ("dirty_staging_action"@, FieldDefault::Action(DirtyStagingAction::Commit)),
        ("on_staging_change"@, FieldDefault::EmptyList),
        ("persistent_threads"@, FieldDefault::Flag(false)),
        ("ghost_commits"@, FieldDefault::Flag(false)),
        ("drift_manager"@, FieldDefault::Flag(false)),
    ]
}

/// The fields and defaults of a new configuration, as text and values.
pub open spec fn fields_view(v: Seq<(String, FieldDefault)>) -> Seq<(Seq<char>, FieldDefault)> {
    v.map_values(|p: (String, FieldDefault)| (p.0@, p.1))
}

/// The configuration written when none exists yet.
pub fn default_config_fields() -> (r: Vec<(String, FieldDefault)>)
    ensures
        fields_view(r@) == initial_config(),
{
    let r: Vec<(String, FieldDefault)> = vec![
        (owned("workspace_path"), FieldDefault::WorkspacePath),
        (owned("append_agents_file"), FieldDefault::NoAgentsFiles),
        (owned("commands"), FieldDefault::EmptyList),
        (owned("post_turn_checks"), FieldDefault::EmptyList),
        (owned("models"), FieldDefault::Models(default_models())),
        (owned("reasoning"), FieldDefault::Reasoning(default_reasoning())),
        (owned("docker_overrides"), FieldDefault::NoDockerOverrides),
        (owned("dirty_staging_action"), FieldDefault::Action(DirtyStagingAction::Commit)),
        (owned("on_staging_change"), FieldDefault::EmptyList),
        (owned("persistent_threads"), FieldDefault::Flag(false)),
        (owned("ghost_commits"), FieldDefault::Flag(false)),
        (owned("drift_manager"), FieldDefault::Flag(false)),
    ];
    assert(fields_view(r@) =~= initial_config());
    r
}

/// A new configuration starts every newer field with the default that
/// fills it in when missing from an older one.
pub proof fn lemma_initial_config_uses_newer_defaults(i: int)
    requires
        4 <= i < 12,
    ensures
        newer_default(initial_config()[i].0) == Some(initial_config()[i].1),
        initial_config()[i].0 == newer_fields()[i - 4],
{
    reveal_strlit("models");
    reveal_strlit("reasoning");
    reveal_strlit("docker_overrides");
    reveal_strlit("dirty_staging_action");
    reveal_strlit("on_staging_change");
    reveal_strlit("persistent_threads");
    reveal_strlit("ghost_commits");
    reveal_strlit("drift_manager");
}

/// The dirty-staging action a configuration names: commit unless it names
/// one.
pub fn configured_action(value: Option<&str>) -> (r: DirtyStagingAction)
    ensures
        r == match value {
            Some(v) => match action_named(v@) {
                Some(a) => a,
                None => DirtyStagingAction::Commit,
            },
            None => DirtyStagingAction::Commit,
        },
{
    match value {
        Some(v) => match DirtyStagingAction::from_str(v) {
            Some(a) => a,
            None => DirtyStagingAction::Commit,
        },
        None => DirtyStagingAction::Commit,
    }
}

/// Failures of reading and writing the configuration file.
#[derive(Debug)]
pub enum ConfigError {
    /// There is no configuration file at the path.
    NotFound(String),
    /// Reading or writing failed; the I/O error's message.
    Io(String),
    /// The file is not a valid configuration; the serialization error's
    /// message.
    Serde(String),
}

/// How a configuration error is reported.
pub open spec fn config_error_message(e: ConfigError) -> Seq<char> {
    match e {
        ConfigError::NotFound(p) => "config file not found at "@ + p@,
        ConfigError::Io(m) => "config IO error: "@ + m@,
        ConfigError::Serde(m) => "config serialization error: "@ + m@,
    }
}

impl ConfigError {
    /// The HTTP status answering the error: 404 for a missing file, 400 for
    /// an invalid one, 500 for an I/O failure.
    pub fn status(&self) -> (r: u16)
        ensures
            r == match *self {
                ConfigError::NotFound(_) => 404u16,
                ConfigError::Serde(_) => 400u16,
                ConfigError::Io(_) => 500u16,
            },
    {
        match self {
            ConfigError::NotFound(_) => 404,
            ConfigError::Serde(_) => 400,
            ConfigError::Io(_) => 500,
        }
    }

    /// How the error is reported.
    pub fn message(&self) -> (r: String)
        ensures
            r@ == config_error_message(*self),
    {
        let (head, body) = match self {
            ConfigError::NotFound(p) => ("config file not found at ", p.as_str()),
            ConfigError::Io(m) => ("config IO error: ", m.as_str()),
            ConfigError::Serde(m) => ("config serialization error: ", m.as_str()),
        };
        let mut v = chars_of(head);
        push_str_chars(&mut v, body);
        string_of(&v)
    }
}

/// Checks a configuration before it is saved: a refused model and
/// reasoning pair is answered with 400 and the check's message.
pub fn validate_workspace_config(
    models: &AgentModelOverrides,
    reasoning: &AgentReasoningOverrides,
) -> (r: Result<(), (u16, String)>)
    ensures
        match preferences_check(*models, *reasoning) {
            Ok(()) => r is Ok,
            Err(m) => r matches Err((code, s)) && code == 400 && s@ == m,
        },
{
    match validate_preferences(models, reasoning) {
        Ok(()) => Ok(()),
        Err(msg) => Err((400, msg)),
    }
}

} // verus!
