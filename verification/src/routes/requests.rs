//! Checks of request bodies shared by several routes.

use vstd::prelude::*;

use crate::shared::git::GitError;
use crate::text::{chars_of, string_of, trim, trim_chars};

verus! {

/// A command or commit message from a request, trimmed; none when blank,
/// which the route answers with 400.
pub fn trimmed_request(text: &str) -> (r: Option<String>)
    ensures
        match r {
            Some(s) => trim(text@).len() > 0 && s@ == trim(text@),
            None => trim(text@).len() == 0,
        },
{
    let t = trim_chars(&chars_of(text));
    if t.len() == 0 {
        None
    } else {
        Some(string_of(&t))
    }
}

/// The status answering a failed commit of a worktree: 400 when git
/// refused the commit, 500 for any other failure.
pub fn commit_error_status(e: &GitError) -> (r: u16)
    ensures
        r == (if e is CommandFailure {
            400u16
        } else {
            500u16
        }),
{
    match e {
        GitError::CommandFailure { .. } => 400,
        _ => 500,
    }
}

} // verus!
