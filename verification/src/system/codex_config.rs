//! The model and reasoning level each persona runs Codex with.

use vstd::prelude::*;

use crate::models::{
    model_label, reasoning_label, AgentModelOverrides, AgentReasoningOverrides, ModelName,
    ReasoningEffort,
};
use crate::text::{chars_of, owned, push_str_chars, string_of};

verus! {

/// The personas that run Codex.
#[derive(Clone, Copy, PartialEq, Eq, Structural, Debug)]
pub enum AgentKind {
    Orchestrator,
    Worker,
    Wizard,
}

/// The model and reasoning level a persona is launched with.
#[derive(Clone, Debug)]
pub struct PersonaLaunchSettings {
    pub model: String,
    pub reasoning: String,
}

/// Every persona on `gpt-5.1-codex`.
pub open spec fn spec_default_models() -> AgentModelOverrides {
    AgentModelOverrides {
        orchestrator: ModelName::Gpt5Period1Codex,
        worker: ModelName::Gpt5Period1Codex,
        wizard: ModelName::Gpt5Period1Codex,
    }
}

/// Every persona at medium reasoning.
pub open spec fn spec_default_reasoning() -> AgentReasoningOverrides {
    AgentReasoningOverrides {
        orchestrator: ReasoningEffort::Medium,
        worker: ReasoningEffort::Medium,
        wizard: ReasoningEffort::Medium,
    }
}

/// The models used until the configuration says otherwise.
pub fn default_models() -> (r: AgentModelOverrides)
    ensures
        r == spec_default_models(),
{
    AgentModelOverrides {
        orchestrator: ModelName::Gpt5Period1Codex,
        worker: ModelName::Gpt5Period1Codex,
        wizard: ModelName::Gpt5Period1Codex,
    }
}

/// The reasoning levels used until the configuration says otherwise.
pub fn default_reasoning() -> (r: AgentReasoningOverrides)
    ensures
        r == spec_default_reasoning(),
{
    AgentReasoningOverrides {
        orchestrator: ReasoningEffort::Medium,
        worker: ReasoningEffort::Medium,
        wizard: ReasoningEffort::Medium,
    }
}

/// The model of persona `kind`.
pub open spec fn model_of(models: AgentModelOverrides, kind: AgentKind) -> ModelName {
    match kind {
        AgentKind::Orchestrator => models.orchestrator,
        AgentKind::Worker => models.worker,
        AgentKind::Wizard => models.wizard,
    }
}

/// The reasoning level of persona `kind`.
pub open spec fn reasoning_of(reasoning: AgentReasoningOverrides, kind: AgentKind) -> ReasoningEffort {
    match kind {
        AgentKind::Orchestrator => reasoning.orchestrator,
        AgentKind::Worker => reasoning.worker,
        AgentKind::Wizard => reasoning.wizard,
    }
}

/// The current model and reasoning level of every persona.
#[derive(Clone, Copy, Debug)]
pub struct CodexSettings {
    pub models: AgentModelOverrides,
    pub reasoning: AgentReasoningOverrides,
}

impl CodexSettings {
    /// The settings at startup: the default models and reasoning levels.
    pub fn new() -> (r: Self)
        ensures
            r.models == spec_default_models(),
            r.reasoning == spec_default_reasoning(),
    {
        CodexSettings { models: default_models(), reasoning: default_reasoning() }
    }

    /// Goes back to the default models and reasoning levels.
    pub fn reset(&mut self)
        ensures
            final(self).models == spec_default_models(),
            final(self).reasoning == spec_default_reasoning(),
    {
        self.models = default_models();
        self.reasoning = default_reasoning();
    }

    /// Takes the models and reasoning levels of a new configuration.
    pub fn replace(&mut self, models: AgentModelOverrides, reasoning: AgentReasoningOverrides)
        ensures
            final(self).models == models,
            final(self).reasoning == reasoning,
    {
        self.models = models;
        self.reasoning = reasoning;
    }

    /// What persona `kind` is launched with: the name of its model and of
    /// its reasoning level.
    pub fn settings_for(&self, kind: AgentKind) -> (r: PersonaLaunchSettings)
        ensures
            r.model@ == model_label(model_of(self.models, kind)),
            r.reasoning@ == reasoning_label(reasoning_of(self.reasoning, kind)),
    {
        let (m, e) = match kind {
            AgentKind::Orchestrator => (self.models.orchestrator, self.reasoning.orchestrator),
            AgentKind::Worker => (self.models.worker, self.reasoning.worker),
            AgentKind::Wizard => (self.models.wizard, self.reasoning.wizard),
        };
        PersonaLaunchSettings { model: owned(m.as_str()), reasoning: owned(e.as_str()) }
    }
}

/// A model as the preference check sees it: its name, and whether it is a
/// mini model.
pub struct ModelChoice {
    label: String,
    mini: bool,
}

impl ModelChoice {
    /// A model named `label`, mini or not.
    pub fn new(label: &str, mini: bool) -> (r: Self)
        ensures
            r.label() == label@,
            r.is_mini_spec() == mini,
    {
        ModelChoice { label: owned(label), mini }
    }

    /// The model's name.
    pub closed spec fn label(&self) -> Seq<char> {
        self.label@
    }

    /// Whether the model is a mini model.
    pub closed spec fn is_mini_spec(&self) -> bool {
        self.mini
    }

    /// Whether the model is a mini model.
    pub fn is_mini(&self) -> (r: bool)
        ensures
            r == self.is_mini_spec(),
    {
        self.mini
    }

    /// The model's name.
    pub fn as_str(&self) -> (r: &str)
        ensures
            r@ == self.label(),
    {
        self.label.as_str()
    }
}

/// Only `gpt-5.1-codex-mini` is a mini model.
pub open spec fn is_mini_model(m: ModelName) -> bool {
    m == ModelName::Gpt5Period1CodexMini
}

/// The preference check's view of a configured model.
pub fn model_choice(m: ModelName) -> (r: ModelChoice)
    ensures
        r.label() == model_label(m),
        r.is_mini_spec() == is_mini_model(m),
{
    ModelChoice::new(m.as_str(), m == ModelName::Gpt5Period1CodexMini)
}

/// The message refusing low reasoning on a mini model.
pub open spec fn low_on_mini_message(persona: Seq<char>, model: Seq<char>) -> Seq<char> {
    "Reasoning level \"low\" is not supported when the "@ + persona + " persona uses "@ + model
        + "."@
}

/// Whether persona `persona`'s pair is refused: low reasoning on a mini
/// model.
pub open spec fn refused(m: ModelName, r: ReasoningEffort) -> bool {
    is_mini_model(m) && r == ReasoningEffort::Low
}

/// Refuses low reasoning on a mini model.
fn ensure_supported(persona: &str, model: ModelChoice, reasoning: ReasoningEffort) -> (r: Result<
    (),
    String,
>)
    ensures
        model.is_mini_spec() && reasoning == ReasoningEffort::Low ==> (r matches Err(m) && m@
            == low_on_mini_message(persona@, model.label())),
        !(model.is_mini_spec() && reasoning == ReasoningEffort::Low) ==> r is Ok,
{
    if model.is_mini() && reasoning == ReasoningEffort::Low {
        let mut msg = chars_of("Reasoning level \"low\" is not supported when the ");
        push_str_chars(&mut msg, persona);
        push_str_chars(&mut msg, " persona uses ");
        push_str_chars(&mut msg, model.as_str());
        push_str_chars(&mut msg, ".");
        return Err(string_of(&msg));
    }
    Ok(())
}

/// The outcome of checking a configuration: the first persona, in the
/// order orchestrator, worker, wizard, that pairs a mini model with low
/// reasoning is refused.
pub open spec fn preferences_check(
    models: AgentModelOverrides,
    reasoning: AgentReasoningOverrides,
) -> Result<(), Seq<char>> {
    if refused(models.orchestrator, reasoning.orchestrator) {
        Err(low_on_mini_message("orchestrator"@, model_label(models.orchestrator)))
    } else if refused(models.worker, reasoning.worker) {
        Err(low_on_mini_message("worker"@, model_label(models.worker)))
    } else if refused(models.wizard, reasoning.wizard) {
        Err(low_on_mini_message("wizard"@, model_label(models.wizard)))
    } else {
        Ok(())
    }
}

/// Checks a configuration's models against its reasoning levels.
pub fn validate_preferences(
    models: &AgentModelOverrides,
    reasoning: &AgentReasoningOverrides,
) -> (r: Result<(), String>)
    ensures
        match preferences_check(*models, *reasoning) {
            Ok(()) => r is Ok,
            Err(m) => r matches Err(s) && s@ == m,
        },
{
    if let Err(e) = ensure_supported(
        "orchestrator",
        model_choice(models.orchestrator),
        reasoning.orchestrator,
    ) {
        return Err(e);
    }
    if let Err(e) = ensure_supported("worker", model_choice(models.worker), reasoning.worker) {
        return Err(e);
    }
    ensure_supported("wizard", model_choice(models.wizard), reasoning.wizard)
}


/// Until configured otherwise, every persona is launched with
/// `gpt-5.1-codex` at medium reasoning.
pub proof fn lemma_default_launch_settings(kind: AgentKind)
    ensures
        model_label(model_of(spec_default_models(), kind)) == "gpt-5.1-codex"@,
        reasoning_label(reasoning_of(spec_default_reasoning(), kind)) == "medium"@,
{
}

/// The default configuration passes the preference check.
pub proof fn lemma_defaults_accepted()
    ensures
        preferences_check(spec_default_models(), spec_default_reasoning()) is Ok,
{
}

/// A configuration is refused exactly when some persona, the orchestrator,
/// a worker or the wizard, pairs `gpt-5.1-codex-mini` with low reasoning;
/// the refusal names the first such persona, in that order.
pub proof fn lemma_mini_with_low_refused(models: AgentModelOverrides, reasoning: AgentReasoningOverrides)
    ensures
        preferences_check(models, reasoning) is Err <==> (
        (models.orchestrator == ModelName::Gpt5Period1CodexMini && reasoning.orchestrator
            == ReasoningEffort::Low) || (models.worker == ModelName::Gpt5Period1CodexMini
            && reasoning.worker == ReasoningEffort::Low) || (models.wizard
            == ModelName::Gpt5Period1CodexMini && reasoning.wizard == ReasoningEffort::Low)),
        models.orchestrator == ModelName::Gpt5Period1CodexMini && reasoning.orchestrator
            == ReasoningEffort::Low ==> preferences_check(models, reasoning) == Err::<(), Seq<char>>(
            low_on_mini_message("orchestrator"@, "gpt-5.1-codex-mini"@),
        ),
        !(models.orchestrator == ModelName::Gpt5Period1CodexMini && reasoning.orchestrator
            == ReasoningEffort::Low) && models.worker == ModelName::Gpt5Period1CodexMini
            && reasoning.worker == ReasoningEffort::Low ==> preferences_check(models, reasoning)
            == Err::<(), Seq<char>>(low_on_mini_message("worker"@, "gpt-5.1-codex-mini"@)),
        !(models.orchestrator == ModelName::Gpt5Period1CodexMini && reasoning.orchestrator
            == ReasoningEffort::Low) && !(models.worker == ModelName::Gpt5Period1CodexMini
            && reasoning.worker == ReasoningEffort::Low) && models.wizard
            == ModelName::Gpt5Period1CodexMini && reasoning.wizard == ReasoningEffort::Low
            ==> preferences_check(models, reasoning) == Err::<(), Seq<char>>(
            low_on_mini_message("wizard"@, "gpt-5.1-codex-mini"@),
        ),
{
}

} // verus!
