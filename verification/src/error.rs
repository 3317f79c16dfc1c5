use vstd::prelude::*;

verus! {

/// The errors that the notification logic reports to its callers.
#[derive(Debug, Clone, Copy, PartialEq, Eq, Structural)]
pub enum ApiError {
    /// A bot account tried to do what only users may do.
    IsBot,
    /// The stored settings have a shape that cannot be updated.
    InvalidOperation,
    /// A request named something that is not well formed.
    InvalidProperty,
    /// The server failed to produce a result it owed.
    InternalError,
}

} // verus!
