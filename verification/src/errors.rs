//! The error taxonomy shared by every component: a typed failure is returned
//! to the originating caller and never silently swallowed.

use vstd::prelude::*;

verus! {

/// One error kind per failure condition of the session core.
///
/// `StorageError` distinguishes transient, retryable persistence faults from
/// non-retryable corruption; `TransportError` is a peer send failure, handled
/// by disconnecting that peer only.
#[derive(Debug, Clone, Copy, PartialEq, Eq, Structural)]
pub enum AppError {
    /// A referenced entity or token is absent.
    NotFound,
    /// A malformed patch or out-of-range value.
    InvalidInput,
    /// A duplicate id on create.
    Conflict,
    /// The peer's role lacks permission for the requested operation.
    Unauthorized,
    /// A persistence failure; `retryable` is true for transient I/O faults.
    StorageError { retryable: bool },
    /// A peer send failure.
    TransportError,
}

pub type AppResult<T> = Result<T, AppError>;

} // verus!
