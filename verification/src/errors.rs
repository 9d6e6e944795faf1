use vstd::prelude::*;

verus! {

/// The failure kinds that core operations surface to their callers.
///
/// `InvalidCredentials` covers both an unknown username and a wrong
/// password, and `NotFound` covers both an absent and a foreign-owned
/// resource, so that neither response discloses what exists.
#[derive(Clone, Copy, Debug, PartialEq, Eq, Structural)]
pub enum StoreError {
    /// The username or the email is already taken.
    DuplicateIdentity,
    /// The username is unknown or the password does not match.
    InvalidCredentials,
    /// No session token was presented, or it resolves to no live session.
    Unauthenticated,
    /// The resource is absent, or it is not owned by the requesting user.
    NotFound,
    /// The input was rejected before any state change (e.g. a blank title).
    InvalidInput,
    /// An infrastructure-level failure; the caller may retry.
    StorageUnavailable,
}

impl StoreError {
    /// A fixed human-readable description, in place of `Display`.
    pub fn message(&self) -> &'static str {
        match self {
            StoreError::DuplicateIdentity => "Username or email already exists",
            StoreError::InvalidCredentials => "Invalid credentials",
            StoreError::Unauthenticated => "Not authenticated",
            StoreError::NotFound => "Not found",
            StoreError::InvalidInput => "Invalid input",
            StoreError::StorageUnavailable => "Storage unavailable",
        }
    }
}

} // verus!
