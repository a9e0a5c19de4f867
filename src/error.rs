use vstd::prelude::*;

verus! {

/// The failure categories that every operation of the library reports.
#[derive(Debug, Clone, Copy, PartialEq, Eq, Structural)]
pub enum ApiError {
    /// Malformed input: a bad email, a malformed month, an invalid split shape.
    Validation,
    /// Missing, expired or invalid bearer credential or magic-link token.
    Unauthorized,
    /// A referenced row is missing, not owned by the caller, or soft-deleted.
    InvalidReference,
    /// The feature behind the operation is switched off.
    FeatureDisabled,
    /// A second budget without multi-budget mode.
    Conflict,
    /// A server-side failure: a sum or an identifier that does not fit in its
    /// machine integer, or no randomness from the operating system.
    Internal,
}

} // verus!
