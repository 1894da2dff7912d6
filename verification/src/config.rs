//! What one run is configured with.

use vstd::prelude::*;

verus! {

/// The settings that the state machine reads.
#[derive(Clone, Copy, Debug, PartialEq, Eq, Structural)]
pub struct Config {
    /// How long the tracer waits for the test to appear, and then for each
    /// of its stops, in the time unit of the caller's clock.
    pub test_timeout: u64,
    /// Whether a warning is due when a state is stepped that has no handler.
    pub verbose: bool,
}

impl Config {
    /// A configuration with the given timeout that stays silent.
    pub fn new(test_timeout: u64) -> (config: Config)
        ensures
            config == (Config { test_timeout, verbose: false }),
    {
        Config { test_timeout, verbose: false }
    }
}

} // verus!
