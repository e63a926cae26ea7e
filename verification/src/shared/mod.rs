//! Command-line builders and parsers shared by the routes and threads.

pub mod cmdline;
pub mod git_commands;
pub mod codex_exec;
pub mod docker;
pub mod git;
pub mod git_diff;
pub mod git_output;
pub mod git_status;
pub mod git_worktree;
pub mod shell;
