//! The ways in which an emission can fail.

use vstd::prelude::*;

verus! {

/// Why a sink could not complete an operation.
#[derive(Clone, Copy, Debug, PartialEq, Eq, Structural)]
pub enum EmitError {
    /// The result could not be turned into the output encoding. Nothing
    /// was written.
    Serialize,
    /// The stream rejected the record: it is closed or has no room left.
    Write,
    /// The guard of the stream is corrupted: an earlier writer failed in
    /// the middle of a record. The sink refuses all further emissions.
    Internal,
}

impl EmitError {
    /// A short description of the failure.
    pub fn describe(&self) -> (r: &'static str)
        ensures
            r@ == match *self {
                EmitError::Serialize => "result could not be serialized"@,
                EmitError::Write => "stream rejected the write"@,
                EmitError::Internal => "stream guard is poisoned"@,
            },
    {
        match self {
            EmitError::Serialize => "result could not be serialized",
            EmitError::Write => "stream rejected the write",
            EmitError::Internal => "stream guard is poisoned",
        }
    }
}

} // verus!
