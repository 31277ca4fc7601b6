//! The failure kinds a run can signal.

use vstd::prelude::*;

verus! {

/// The fatal error of a strict run: the first failing check stops the whole
/// run and carries its paired success and failure wordings for diagnostics.
#[derive(Debug, Clone, PartialEq, Eq)]
pub struct ImmediateFailure {
    pub success_message: String,
    pub failure_message: String,
}

impl ImmediateFailure {
    /// Pair the two wordings of the check that failed.
    pub fn new(success_message: String, failure_message: String) -> (r: Self)
        ensures
            r.success_message@ == success_message@,
            r.failure_message@ == failure_message@,
    {
        ImmediateFailure { success_message, failure_message }
    }
}

/// A misconfigured check: the test itself is broken, not the code under
/// test, so the run aborts at once whatever the failure policy is.
#[derive(Debug, Clone, PartialEq, Eq)]
pub enum SetupError {
    /// The pattern handed to a matching check is not a valid regex.
    InvalidPattern,
    /// The pattern never matched the text, or has no such capture group.
    MissingCapture,
}

/// Everything that can stop a strict run.
#[derive(Debug, Clone, PartialEq, Eq)]
pub enum CheckError {
    /// A check failed, so the whole strict run fails.
    Failed(ImmediateFailure),
    /// A check was misconfigured.
    Setup(SetupError),
}

impl core::convert::From<ImmediateFailure> for CheckError {
    fn from(f: ImmediateFailure) -> (r: Self) {
        CheckError::Failed(f)
    }
}

impl vstd::std_specs::convert::FromSpecImpl<ImmediateFailure> for CheckError {
    open spec fn obeys_from_spec() -> bool {
        true
    }

    open spec fn from_spec(f: ImmediateFailure) -> Self {
        CheckError::Failed(f)
    }
}

impl core::convert::From<SetupError> for CheckError {
    fn from(e: SetupError) -> (r: Self) {
        CheckError::Setup(e)
    }
}

impl vstd::std_specs::convert::FromSpecImpl<SetupError> for CheckError {
    open spec fn obeys_from_spec() -> bool {
        true
    }

    open spec fn from_spec(e: SetupError) -> Self {
        CheckError::Setup(e)
    }
}

} // verus!
