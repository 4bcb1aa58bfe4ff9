//! The failures that the connection manager reports.

use vstd::prelude::*;

verus! {

/// Why an operation on the stores did not succeed.
#[derive(Debug, Clone, Copy, PartialEq, Eq, Structural)]
pub enum Error {
    /// The backend could not open, read or write a store.
    StoreUnavailable,
    /// No profile is stored under the given id.
    ConnectionNotFound,
    /// A profile is stored under the given id, but no secret.
    TokenNotFound,
    /// The profile was saved and the secret was not: the secret write can be
    /// retried alone.
    PartialUpsertFailure,
}

impl Error {
    /// The text shown to the user for this failure.
    pub open spec fn text(self) -> Seq<char> {
        match self {
            Error::StoreUnavailable => "Failed to access store"@,
            Error::ConnectionNotFound => "Connection not found"@,
            Error::TokenNotFound => "Token not found for connection"@,
            Error::PartialUpsertFailure => "Connection saved, but failed to save token"@,
        }
    }

    /// A descriptive message for the user interface.
    pub fn message(&self) -> (text: String)
        ensures
            text@ == self.text(),
    {
        match self {
            Error::StoreUnavailable => String::from_str("Failed to access store"),
            Error::ConnectionNotFound => String::from_str("Connection not found"),
            Error::TokenNotFound => String::from_str("Token not found for connection"),
            Error::PartialUpsertFailure => String::from_str(
                "Connection saved, but failed to save token",
            ),
        }
    }
}

} // verus!
