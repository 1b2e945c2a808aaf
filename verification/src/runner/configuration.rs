//! The settings of a runner.

use vstd::prelude::*;

verus! {

/// What a runner is told once, when it is made.
#[derive(Clone, Copy, PartialEq, Eq, Debug)]
pub struct Configuration {
    /// Whether the blocks of a context are evaluated in parallel.
    pub parallel: bool,
    /// Whether a failing run is to end the process.
    pub exit_on_failure: bool,
}

impl Default for Configuration {
    /// Parallel evaluation, and exit on failure.
    fn default() -> (configuration: Self)
        ensures
            configuration == (Configuration { parallel: true, exit_on_failure: true }),
    {
        Configuration { parallel: true, exit_on_failure: true }
    }
}

} // verus!
