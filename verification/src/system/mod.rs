//! The server's configuration stores and the decisions of its system layer:
//! Codex launch settings, Docker overrides, feature toggles, the active
//! strategy and the worker queue.

pub mod codex_config;
pub mod dirty_staging;
pub mod docker_overrides;
pub mod events;
pub mod features;
pub mod queue;
pub mod runner;
pub mod staging_hooks;
pub mod strategy;

use vstd::prelude::*;

use crate::models::Strategy;
use crate::system::events::SystemEvent;
use crate::system::queue::{AssignedView, QueueCoordinator};
use crate::system::strategy::StrategyState;

verus! {

/// The shared state of the system layer: the active strategy and the
/// worker queue.
pub struct SystemState {
    pub strategy: StrategyState,
    pub queue: QueueCoordinator,
}

/// The system layer at startup: planning with no focus, and a queue that
/// knows no worker.
pub fn init_system_state() -> (r: SystemState)
    ensures
        r.strategy.current() == (Strategy::Planning, Some(Seq::<i64>::empty())),
        r.queue.known() == Set::<i64>::empty(),
        r.queue.assignments() == Map::<i64, AssignedView>::empty(),
        r.queue.events() == Seq::<SystemEvent>::empty(),
{
    SystemState { strategy: StrategyState::new(), queue: QueueCoordinator::new() }
}

} // verus!
