use vstd::prelude::*;

verus! {

/// The failures that the service reports to its callers.
#[derive(Debug, Clone, Copy, PartialEq, Eq, Structural)]
pub enum Error {
    /// Unknown identity or wrong credential; the two are never told apart.
    AuthenticationFailed,
    /// A direct user lookup found nobody.
    UserNotFound,
    /// A user with that name or email is already registered.
    UserExists,
    /// The store could not commit the write; nothing of it was kept.
    StorageFailure,
    /// The client speaks another protocol version.
    ProtocolMismatch,
}

/// The description of each failure.
pub open spec fn error_text(e: Error) -> &'static str {
    match e {
        Error::AuthenticationFailed => "invalid username or password",
        Error::UserNotFound => "user not found",
        Error::UserExists => "user already exists",
        Error::StorageFailure => "unable to commit to the store",
        Error::ProtocolMismatch => "protocol version mismatch",
    }
}

impl Error {
    /// A short human-readable description of the failure.
    pub fn message(&self) -> (r: &'static str)
        ensures
            r@ == error_text(*self)@,
    {
        match self {
            Error::AuthenticationFailed => "invalid username or password",
            Error::UserNotFound => "user not found",
            Error::UserExists => "user already exists",
            Error::StorageFailure => "unable to commit to the store",
            Error::ProtocolMismatch => "protocol version mismatch",
        }
    }
}

} // verus!
