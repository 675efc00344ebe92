//! Diagnostic messages: advisory lines that never reach the result stream.

use vstd::prelude::*;

verus! {

/// A free-text diagnostic line.
#[derive(Clone, Debug, PartialEq, Eq)]
pub struct SimpleLogMessage {
    /// The text of the line.
    pub message: String,
}

impl SimpleLogMessage {
    /// A diagnostic line with the given text.
    pub fn new(message: String) -> (r: SimpleLogMessage)
        ensures
            r.message == message,
    {
        SimpleLogMessage { message }
    }
}

} // verus!
