//! Classification of how the command-line tool ended.

use vstd::prelude::*;
use crate::error::CtlError;

verus! {

/// What a successful invocation says about its payload.
#[derive(Clone, Copy, Debug, PartialEq, Eq, Structural)]
pub enum Outcome {
    /// Exit code 0.
    Success,
    /// Exit code 1 or 3: the tool ran, and its output reports an absent or
    /// inactive unit. The captured output still has to be read.
    AbsentOrInactive,
}

/// The meaning of an exit code; `None` stands for death by signal.
pub open spec fn classify_spec(code: Option<i32>) -> Result<Outcome, CtlError> {
    match code {
        Some(0) => Ok(Outcome::Success),
        Some(1) => Ok(Outcome::AbsentOrInactive),
        Some(3) => Ok(Outcome::AbsentOrInactive),
        Some(4) => Err(CtlError::PermissionOrAmbiguous),
        Some(c) => Err(CtlError::UnknownExitCode(c)),
        None => Err(CtlError::KilledBySignal),
    }
}

/// Classifies the exit code of a finished process.
pub fn classify(code: Option<i32>) -> (r: Result<Outcome, CtlError>)
    ensures
        r == classify_spec(code),
        r is Ok <==> (code == Some(0i32) || code == Some(1i32) || code == Some(3i32)),
        code == Some(4i32) ==> r == Err::<Outcome, CtlError>(CtlError::PermissionOrAmbiguous),
        code is None ==> r == Err::<Outcome, CtlError>(CtlError::KilledBySignal),
{
    match code {
        Some(0) => Ok(Outcome::Success),
        Some(1) => Ok(Outcome::AbsentOrInactive),
        Some(3) => Ok(Outcome::AbsentOrInactive),
        Some(4) => Err(CtlError::PermissionOrAmbiguous),
        Some(c) => Err(CtlError::UnknownExitCode(c)),
        None => Err(CtlError::KilledBySignal),
    }
}

/// The captured result of one finished invocation.
#[derive(Clone, Debug, PartialEq, Eq)]
pub struct RunResult {
    /// Everything the process wrote to its standard output.
    pub stdout: String,
    /// Everything the process wrote to its standard error.
    pub stderr: String,
    /// The exit code; `None` when a signal ended the process.
    pub exit_code: Option<i32>,
}

} // verus!
