//! The decisions behind the HTTP routes: where the configuration lives and
//! how it is completed and checked, the task wizard's command line and
//! output handling, and which task groups are built in.

pub mod config;
pub mod requests;
pub mod task_group;
pub mod task_wizard;
