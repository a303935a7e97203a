//! The error taxonomy of the engine.
//!
//! Every error is terminal for the operation that raised it: an operation
//! either commits in full or returns one of these kinds and leaves every
//! record unchanged, as each operation's contract states.

use vstd::prelude::*;

verus! {

/// One error kind per way an operation can be refused.
#[derive(Clone, Copy, Debug, PartialEq, Eq, Structural)]
pub enum DechargeError {
    /// The caller's identity does not match the required role: the platform
    /// administrator, the telemetry oracle, or the driver bound to a vault.
    Unauthorized,
    /// A station record already holds the address derived from the station
    /// code.
    StationAlreadyExists,
    /// The referenced charging station is not active.
    StationInactive,
    /// The session is not in the `Active` state, so it is not open for
    /// mutation.  The kind is also returned for a repeated close.
    SessionClosed,
    /// Reserved for operations that require a terminal session; no operation
    /// of the core flows returns it.
    SessionActive,
    /// Reserved for telemetry payload validation beyond the overflow checks;
    /// no operation of the core flows returns it.
    InvalidTelemetry,
    /// A redemption asked for more points than the driver's outstanding
    /// balance holds.
    InsufficientPoints,
    /// The supplied driver identity or credit account does not match the
    /// binding stored in the driver's points vault.
    PointsVaultMismatch,
    /// A variable-length field exceeds its maximum byte length.
    DataTooLong,
    /// A world plot record already holds the address derived from the region
    /// key.
    PlotOccupied,
    /// A checked addition, multiplication or subtraction would wrap.
    NumericalOverflow,
    /// A record already holds a derived address; returned where no more
    /// specific kind applies, such as a repeated platform initialization.
    AlreadyExists,
}

} // verus!
