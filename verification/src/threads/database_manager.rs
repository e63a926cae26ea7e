//! The database manager's configuration.

use vstd::prelude::*;

verus! {

/// The capacity of the database manager's command channel.
pub struct DatabaseManagerConfig {
    pub command_buffer: usize,
}

impl Default for DatabaseManagerConfig {
    /// 64 commands.
    fn default() -> (r: Self)
        ensures
            r.command_buffer == 64,
    {
        DatabaseManagerConfig { command_buffer: 64 }
    }
}

} // verus!
