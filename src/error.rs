use vstd::prelude::*;

verus! {

/// The failures that the runner reports to its caller.
#[derive(Debug, Clone, PartialEq, Eq)]
pub enum Error {
    /// A configuration file could not be read or was not valid JSON.
    ConfigError(String),
    /// An operation needs state that has not been set up yet.
    StateError(String),
    /// A task names a position beyond the end of the command pool.
    IndexOutOfBounds(usize),
}

impl Error {
    pub open spec fn is_state_error(&self) -> bool {
        self is StateError
    }
}

} // verus!
