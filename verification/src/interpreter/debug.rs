//! The switch for step-by-step introspection.

use vstd::prelude::*;

verus! {

pub struct DebugOutput {
    enabled: bool,
}

impl DebugOutput {
    /// Whether a snapshot is written, and a line awaited, before each
    /// instruction.
    pub closed spec fn spec_is_enabled(&self) -> bool {
        self.enabled
    }

    pub fn new(enabled: bool) -> (debug: Self)
        ensures
            debug.is_enabled() == enabled,
    {
        Self { enabled }
    }

    #[verifier::when_used_as_spec(spec_is_enabled)]
    pub fn is_enabled(&self) -> (enabled: bool)
        ensures
            enabled == self.spec_is_enabled(),
    {
        self.enabled
    }
}

} // verus!
