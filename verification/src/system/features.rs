//! Experimental features that the configuration can switch on.

use vstd::prelude::*;

verus! {

/// Which experimental features are on.
#[derive(Debug, Clone, Copy, PartialEq, Eq, Structural)]
pub struct FeatureToggles {
    pub persistent_threads: bool,
    pub ghost_commits: bool,
    pub drift_manager: bool,
}

/// Every feature off.
pub open spec fn all_off() -> FeatureToggles {
    FeatureToggles { persistent_threads: false, ghost_commits: false, drift_manager: false }
}

impl Default for FeatureToggles {
    fn default() -> (r: Self)
        ensures
            r == all_off(),
    {
        FeatureToggles { persistent_threads: false, ghost_commits: false, drift_manager: false }
    }
}

/// The toggles in force.
pub struct FeatureStore {
    toggles: FeatureToggles,
}

impl FeatureStore {
    /// The store at startup: every feature off.
    pub fn new() -> (r: Self)
        ensures
            r.toggles_spec() == all_off(),
    {
        FeatureStore { toggles: FeatureToggles::default() }
    }

    /// The toggles in force.
    pub closed spec fn toggles_spec(&self) -> FeatureToggles {
        self.toggles
    }

    /// Puts `new` in force.
    pub fn replace(&mut self, new: FeatureToggles)
        ensures
            final(self).toggles_spec() == new,
    {
        self.toggles = new;
    }

    /// Switches every feature off.
    pub fn reset(&mut self)
        ensures
            final(self).toggles_spec() == all_off(),
    {
        self.replace(FeatureToggles::default());
    }

    /// The toggles in force.
    pub fn snapshot(&self) -> (r: FeatureToggles)
        ensures
            r == self.toggles_spec(),
    {
        self.toggles
    }

    /// Whether threads persist across turns.
    pub fn persistent_threads(&self) -> (r: bool)
        ensures
            r == self.toggles_spec().persistent_threads,
    {
        self.snapshot().persistent_threads
    }

    /// Whether ghost commits are made.
    pub fn ghost_commits(&self) -> (r: bool)
        ensures
            r == self.toggles_spec().ghost_commits,
    {
        self.snapshot().ghost_commits
    }

    /// Whether the drift manager runs.
    pub fn drift_manager(&self) -> (r: bool)
        ensures
            r == self.toggles_spec().drift_manager,
    {
        self.snapshot().drift_manager
    }
}

} // verus!
