//! The errors of the HTML report.

use vstd::prelude::*;

verus! {

/// Why a report could not be made.
#[derive(Debug, Clone, Copy, PartialEq, Eq, Structural)]
pub enum Error {
    /// The cause is not known.
    Unknown,
}

impl Error {
    /// What the error is, in words: nothing is said of it.
    pub fn description(&self) -> (text: String)
        ensures
            text@ == ""@,
    {
        "".to_string()
    }

    /// The error behind this one: there is never one.
    pub fn cause(&self) -> (behind: Option<Error>)
        ensures
            behind is None,
    {
        None
    }
}

} // verus!
