//! The API's configuration values: the model and reasoning level of each
//! persona, the extra `docker run` arguments of each persona, and the
//! active scheduling strategy.

use vstd::prelude::*;

verus! {

/// A Codex model a persona can run.
#[derive(Clone, Copy, PartialEq, Eq, Structural, Debug)]
pub enum ModelName {
    Gpt5Period1CodexMax,
    Gpt5Period1Codex,
    Gpt5Period1CodexMini,
    Gpt5Period1,
}

/// The name Codex knows a model by.
pub open spec fn model_label(m: ModelName) -> Seq<char> {
    match m {
        ModelName::Gpt5Period1CodexMax => "gpt-5.1-codex-max"@,
        ModelName::Gpt5Period1Codex => "gpt-5.1-codex"@,
        ModelName::Gpt5Period1CodexMini => "gpt-5.1-codex-mini"@,
        ModelName::Gpt5Period1 => "gpt-5.1"@,
    }
}

impl ModelName {
    /// The name Codex knows the model by.
    pub fn as_str(&self) -> (r: &'static str)
        ensures
            r@ == model_label(*self),
    {
        match self {
            ModelName::Gpt5Period1CodexMax => "gpt-5.1-codex-max",
            ModelName::Gpt5Period1Codex => "gpt-5.1-codex",
            ModelName::Gpt5Period1CodexMini => "gpt-5.1-codex-mini",
            ModelName::Gpt5Period1 => "gpt-5.1",
        }
    }
}

/// How much reasoning effort a persona's model spends.
#[derive(Clone, Copy, PartialEq, Eq, Structural, Debug)]
pub enum ReasoningEffort {
    Low,
    Medium,
    High,
}

/// The name Codex knows a reasoning level by.
pub open spec fn reasoning_label(r: ReasoningEffort) -> Seq<char> {
    match r {
        ReasoningEffort::Low => "low"@,
        ReasoningEffort::Medium => "medium"@,
        ReasoningEffort::High => "high"@,
    }
}

impl ReasoningEffort {
    /// The name Codex knows the reasoning level by.
    pub fn as_str(&self) -> (r: &'static str)
        ensures
            r@ == reasoning_label(*self),
    {
        match self {
            ReasoningEffort::Low => "low",
            ReasoningEffort::Medium => "medium",
            ReasoningEffort::High => "high",
        }
    }
}

/// The model of each persona.
#[derive(Clone, Copy, PartialEq, Eq, Structural, Debug)]
pub struct AgentModelOverrides {
    pub orchestrator: ModelName,
    pub worker: ModelName,
    pub wizard: ModelName,
}

/// The reasoning level of each persona.
#[derive(Clone, Copy, PartialEq, Eq, Structural, Debug)]
pub struct AgentReasoningOverrides {
    pub orchestrator: ReasoningEffort,
    pub worker: ReasoningEffort,
    pub wizard: ReasoningEffort,
}

/// Extra `docker run` arguments of each persona.
#[derive(Clone, Debug)]
pub struct DockerOverrides {
    pub orchestrator: Vec<String>,
    pub worker: Vec<String>,
    pub wizard: Vec<String>,
}

/// How the orchestrator hands out work.
#[derive(Clone, Copy, PartialEq, Eq, Structural, Debug)]
pub enum Strategy {
    Aggressive,
    Moderate,
    Economical,
    BugSmash,
    HotfixSwarm,
    Planning,
    WindDown,
}

/// The name of a strategy.
pub open spec fn strategy_label(s: Strategy) -> Seq<char> {
    match s {
        Strategy::Aggressive => "aggressive"@,
        Strategy::Moderate => "moderate"@,
        Strategy::Economical => "economical"@,
        Strategy::BugSmash => "bug_smash"@,
        Strategy::HotfixSwarm => "hotfix_swarm"@,
        Strategy::Planning => "planning"@,
        Strategy::WindDown => "wind_down"@,
    }
}

impl Strategy {
    /// The name of the strategy.
    pub fn as_str(&self) -> (r: &'static str)
        ensures
            r@ == strategy_label(*self),
    {
        match self {
            Strategy::Aggressive => "aggressive",
            Strategy::Moderate => "moderate",
            Strategy::Economical => "economical",
            Strategy::BugSmash => "bug_smash",
            Strategy::HotfixSwarm => "hotfix_swarm",
            Strategy::Planning => "planning",
            Strategy::WindDown => "wind_down",
        }
    }
}

/// The strategy in force and the task groups it focuses on.
#[derive(Clone, Debug)]
pub struct ActiveStrategy {
    pub id: Strategy,
    pub focus: Option<Vec<i64>>,
}

/// How important a feed entry is.
#[derive(Clone, Copy, PartialEq, Eq, Structural, Debug)]
pub enum FeedLevel {
    Info,
    Warning,
    Error,
}

/// A message waiting in the queue.
#[derive(Clone, Debug)]
pub struct Message {
    pub id: i64,
    pub from: String,
    pub to: String,
    pub message: String,
}

} // verus!
