//! What to do with uncommitted changes in the staging worktree: commit
//! them or stash them.

use vstd::prelude::*;

use crate::text::{chars_of, lower_chars, lower_seq, chars_eq};

verus! {

/// How uncommitted changes in staging are put aside.
#[derive(Debug, Clone, Copy, PartialEq, Eq, Structural)]
pub enum DirtyStagingAction {
    Commit,
    Stash,
}

/// The action named `value`, ignoring case. (`str::to_lowercase` can only
/// map a string to `commit` or `stash` when it is one of them up to ASCII
/// case: no other character lowercases to one of their letters.)
pub open spec fn action_named(value: Seq<char>) -> Option<DirtyStagingAction> {
    if lower_seq(value) == "commit"@ {
        Some(DirtyStagingAction::Commit)
    } else if lower_seq(value) == "stash"@ {
        Some(DirtyStagingAction::Stash)
    } else {
        None
    }
}

/// The name of an action.
pub open spec fn action_label(a: DirtyStagingAction) -> Seq<char> {
    match a {
        DirtyStagingAction::Commit => "commit"@,
        DirtyStagingAction::Stash => "stash"@,
    }
}

impl DirtyStagingAction {
    /// The action named `value`, ignoring case.
    pub fn from_str(value: &str) -> (r: Option<Self>)
        ensures
            r == action_named(value@),
    {
        let lower = lower_chars(&chars_of(value));
        if chars_eq(&lower, &chars_of("commit")) {
            Some(DirtyStagingAction::Commit)
        } else if chars_eq(&lower, &chars_of("stash")) {
            Some(DirtyStagingAction::Stash)
        } else {
            None
        }
    }

    /// The name of the action.
    pub fn as_str(&self) -> (r: &'static str)
        ensures
            r@ == action_label(*self),
    {
        match self {
            DirtyStagingAction::Commit => "commit",
            DirtyStagingAction::Stash => "stash",
        }
    }
}

/// The configured action; committing until told otherwise.
pub struct DirtyStagingSetting {
    action: DirtyStagingAction,
}

impl DirtyStagingSetting {
    /// The setting at startup: commit.
    pub fn new() -> (r: Self)
        ensures
            r.current_spec() == DirtyStagingAction::Commit,
    {
        DirtyStagingSetting { action: DirtyStagingAction::Commit }
    }

    /// The configured action.
    pub closed spec fn current_spec(&self) -> DirtyStagingAction {
        self.action
    }

    /// The configured action.
    pub fn current(&self) -> (r: DirtyStagingAction)
        ensures
            r == self.current_spec(),
    {
        self.action
    }

    /// Configures `action`.
    pub fn set(&mut self, action: DirtyStagingAction)
        ensures
            final(self).current_spec() == action,
    {
        self.action = action;
    }
}


/// An action's name reads back as the action.
pub proof fn lemma_action_roundtrip(a: DirtyStagingAction)
    ensures
        action_named(action_label(a)) == Some(a),
{
    reveal_strlit("commit");
    reveal_strlit("stash");
    assert(lower_seq("commit"@) =~= "commit"@);
    assert(lower_seq("stash"@) =~= "stash"@);
}

} // verus!
