//! The commands run after changes are merged into staging.

use vstd::prelude::*;

use crate::text::{clone_strings, strings_view};

verus! {

/// The configured hook commands, in order.
pub struct StagingHooks {
    hooks: Vec<String>,
}

impl StagingHooks {
    /// No hooks.
    pub fn new() -> (r: Self)
        ensures
            r.hooks_spec() == Seq::<Seq<char>>::empty(),
    {
        let r = StagingHooks { hooks: Vec::new() };
        assert(strings_view(r.hooks@) =~= Seq::<Seq<char>>::empty());
        r
    }

    /// The configured hook commands.
    pub closed spec fn hooks_spec(&self) -> Seq<Seq<char>> {
        strings_view(self.hooks@)
    }

    /// Configures the hooks `list`.
    pub fn replace(&mut self, list: Vec<String>)
        ensures
            final(self).hooks_spec() == strings_view(list@),
    {
        self.hooks = list;
    }

    /// The configured hook commands.
    pub fn list(&self) -> (r: Vec<String>)
        ensures
            strings_view(r@) == self.hooks_spec(),
    {
        clone_strings(&self.hooks)
    }
}

} // verus!
