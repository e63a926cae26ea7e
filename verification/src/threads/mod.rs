//! The decisions of the background threads: batching process intents,
//! reading structured worker output, and the queue manager's bookkeeping
//! and messages.

pub mod database_manager;
pub mod middleware;
pub mod process_manager;
pub mod queue_manager;
pub mod messages;
pub mod post_turn;
