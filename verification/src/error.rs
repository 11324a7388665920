//! The ways in which a query can fail.

use vstd::prelude::*;

verus! {

/// Why a query gave no value.
#[derive(Clone, Copy, Debug, PartialEq, Eq, Structural)]
pub enum CtlError {
    /// The unit is not known to the service manager.
    NotFound,
    /// The tool exited with code 4: either privileges are missing or the
    /// unit does not exist. The code alone cannot tell the two apart.
    PermissionOrAmbiguous,
    /// The tool was terminated by a signal and left no exit code.
    KilledBySignal,
    /// The tool exited with a code that has no known meaning.
    UnknownExitCode(i32),
    /// A documentation descriptor or a listing row does not have its
    /// minimal shape.
    MalformedDescriptor,
    /// The suffix of a unit name names no known unit type.
    DecodeFailure,
}

} // verus!
