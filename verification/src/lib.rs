//! Verified core of the Robot Farm agent server: command-line planning for
//! Codex and Docker runs, parsing of git output, the configuration stores of
//! the system layer and the decision logic of the background threads.

pub mod bytes;
pub mod idmap;
pub mod models;
pub mod paths;
pub mod routes;
pub mod split;
pub mod text;
pub mod threads;
pub mod shared;
pub mod system;
