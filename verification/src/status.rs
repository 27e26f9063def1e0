//! The error taxonomy of the boundary and its integer status codes.

use vstd::prelude::*;

verus! {

/// Why a lifecycle request was rejected.
///
/// Every operation reports failure through one of these values; success is
/// the `Ok` side of the operation's `Result`. No error is fatal and none
/// corrupts the lifecycle table: validation precedes every mutation, and a
/// transition is committed only after the backend primitive has succeeded.
#[derive(Clone, Copy, Debug, PartialEq, Eq, Structural)]
pub enum LifecycleError {
    /// A required reference is absent, a string field is empty or was not
    /// validly encoded, or a numeric field is out of the allowed range.
    InvalidArgument,
    /// The identifier has no entry in the lifecycle table where one was
    /// expected.
    NotFound,
    /// The operation is not legal in the identifier's current lifecycle
    /// state.
    InvalidState,
    /// A launch named an identifier that is already tracked as live.
    AlreadyExists,
    /// The external virtualization subsystem reported failure; the table was
    /// left in its last known-good state.
    BackendFailure,
}

/// The integer status code that an outcome is reported as across the
/// boundary: `0` for success and a distinct negative value per error kind,
/// so a caller that only tests "zero versus non-zero" still sees every
/// failure as a failure.
pub open spec fn spec_status_code(r: Result<(), LifecycleError>) -> int {
    match r {
        Ok(()) => 0,
        Err(LifecycleError::InvalidArgument) => -1,
        Err(LifecycleError::NotFound) => -2,
        Err(LifecycleError::InvalidState) => -3,
        Err(LifecycleError::AlreadyExists) => -4,
        Err(LifecycleError::BackendFailure) => -5,
    }
}

/// Turns an operation's outcome into the integer status code returned to the
/// external caller.
pub fn status_code(r: &Result<(), LifecycleError>) -> (code: i32)
    ensures
        code as int == spec_status_code(*r),
        code == 0 <==> (*r) is Ok,
{
    match r {
        Ok(()) => 0,
        Err(LifecycleError::InvalidArgument) => -1,
        Err(LifecycleError::NotFound) => -2,
        Err(LifecycleError::InvalidState) => -3,
        Err(LifecycleError::AlreadyExists) => -4,
        Err(LifecycleError::BackendFailure) => -5,
    }
}

} // verus!
