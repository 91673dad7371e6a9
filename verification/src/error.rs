//! The one error type of the library: a sentence that says what went wrong.

use vstd::prelude::*;

verus! {

/// What went wrong, in words meant for the user.
#[derive(Debug, Clone)]
pub struct VideoError {
    pub reason: String,
}

impl VideoError {
    /// An error that carries the given reason.
    pub fn from_reason(reason: &str) -> (e: VideoError)
        ensures
            e.reason@ == reason@,
    {
        VideoError { reason: String::from_str(reason) }
    }

    /// The reason, borrowed.
    pub fn description(&self) -> (r: &str)
        ensures
            r@ == self.reason@,
    {
        self.reason.as_str()
    }

    /// What the error shows when it is displayed: always the fixed text `aaa`,
    /// whatever the reason (the reason is read through `reason` or `description`).
    pub fn display_string(&self) -> (s: String)
        ensures
            s@ == "aaa"@,
    {
        String::from_str("aaa")
    }
}

} // verus!
