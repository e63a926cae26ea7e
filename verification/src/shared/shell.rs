//! Where shell commands run: the working directory of a command, confined
//! to the workspace.

use vstd::prelude::*;

use crate::paths::{clean_path, cleaned, is_absolute, join, join_str, path_starts_with, path_starts_with_chars};
use crate::text::{chars_of, owned, push_str_chars, string_of, trim, trim_chars};

verus! {

/// `std::io::Error`, carried through without being looked into.
#[verifier::external_type_specification]
#[verifier::external_body]
pub struct ExIoError(std::io::Error);

/// Failures of running a shell command.
#[derive(Debug)]
pub enum ShellError {
    /// The command could not be started.
    Io(std::io::Error),
    /// The requested working directory is not acceptable.
    InvalidCwd(String),
}

/// The text of an optional string.
pub open spec fn opt_str_view(o: Option<&str>) -> Option<Seq<char>> {
    match o {
        Some(s) => Some(s@),
        None => None,
    }
}

/// The message refusing a base directory outside the workspace.
pub open spec fn escape_message(base: Seq<char>, workspace_root: Seq<char>) -> Seq<char> {
    "base directory "@ + base + " escapes workspace root "@ + workspace_root
}

/// The requested working directory, trimmed; none when absent or blank.
pub open spec fn requested_dir(override_cwd: Option<Seq<char>>) -> Option<Seq<char>> {
    match override_cwd {
        Some(s) => if trim(s).len() > 0 {
            Some(trim(s))
        } else {
            None
        },
        None => None,
    }
}

/// The working directory a command runs in. `workspace` and `base` are the
/// workspace root and the base directory as resolved on disk (canonical, or
/// cleaned when they cannot be resolved); `workspace_root` is the root as
/// given. The base must lie inside the workspace. Without a (non-blank)
/// requested directory the command runs in the base; an absolute request is
/// taken as is, a relative one from the base; either way the result is
/// cleaned lexically.
pub open spec fn working_dir(
    workspace_root: Seq<char>,
    workspace: Seq<char>,
    base: Seq<char>,
    override_cwd: Option<Seq<char>>,
) -> Result<Seq<char>, Seq<char>> {
    if !path_starts_with(base, workspace) {
        Err(escape_message(base, workspace_root))
    } else {
        match requested_dir(override_cwd) {
            None => Ok(base),
            Some(raw) => Ok(
                cleaned(
                    if is_absolute(raw) {
                        raw
                    } else {
                        join(base, raw)
                    },
                ),
            ),
        }
    }
}

/// The working directory a command runs in (see `working_dir`); an error
/// names the base directory and the workspace root as given.
pub fn resolve_working_dir(
    workspace_root: &str,
    workspace: &str,
    base: &str,
    override_cwd: Option<&str>,
) -> (r: Result<String, ShellError>)
    ensures
        match working_dir(workspace_root@, workspace@, base@, opt_str_view(override_cwd)) {
            Ok(p) => r matches Ok(s) && s@ == p,
            Err(m) => r matches Err(ShellError::InvalidCwd(s)) && s@ == m,
        },
{
    let w = chars_of(workspace);
    let b = chars_of(base);
    if !path_starts_with_chars(&b, &w) {
        let mut msg = chars_of("base directory ");
        push_str_chars(&mut msg, base);
        push_str_chars(&mut msg, " escapes workspace root ");
        push_str_chars(&mut msg, workspace_root);
        return Err(ShellError::InvalidCwd(string_of(&msg)));
    }
    let raw = match override_cwd {
        Some(s) => {
            let t = trim_chars(&chars_of(s));
            if t.len() > 0 {
                t
            } else {
                return Ok(owned(base));
            }
        },
        None => {
            return Ok(owned(base));
        },
    };
    let raw_str = string_of(&raw);
    let candidate = if raw.len() > 0 && raw[0] == '/' {
        raw_str
    } else {
        join_str(base, raw_str.as_str())
    };
    Ok(clean_path(candidate.as_str()))
}

} // verus!
