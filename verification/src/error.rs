//! Error taxonomy for the library.
//!
//! Policy violations detected before touching storage are user errors
//! (`BadRequest`, `NotFound`, `InvalidState`); storage-level failures are
//! internal errors, optionally wrapped with context.

use vstd::prelude::*;

verus! {

/// Errors with a message meant to be displayed to the user.
#[derive(Debug, Clone, Copy, PartialEq, Eq)]
pub enum UserError {
    /// A malformed submission.
    BadRequest(&'static str),
    /// A referenced location, device, column or attachment is missing.
    NotFound(&'static str),
    /// The operation targets an entity whose state forbids it
    /// (for example a soft-deleted device).
    InvalidState(&'static str),
}

/// Internal (non-user-facing) errors.
#[derive(Debug, Clone, Copy, PartialEq, Eq)]
pub enum InternalError {
    /// An internal assertion failed.
    Assertion(&'static str),
    /// The underlying store failed.
    Storage(&'static str),
}

/// The complete error type: either a user error or an internal error,
/// the latter optionally carrying context.
#[derive(Debug, Clone)]
pub enum Error {
    /// User errors with a message to be displayed to the user.
    User(UserError),
    /// Internal errors without context.
    NoContext(InternalError),
    /// Internal errors with context.
    WithContext { source: InternalError, context: String },
}

impl Error {
    /// Whether this is a user error.
    pub open spec fn spec_is_user(&self) -> bool {
        self is User
    }

    /// Attaches context to an internal error; user errors are kept as they are.
    pub fn with_context(self, context: &str) -> (r: Error)
        ensures
            self is User ==> r == self,
            !(self is User) ==> (r matches Error::WithContext { source, .. }
                && source == self.spec_source()),
    {
        match self {
            Error::User(u) => Error::User(u),
            Error::NoContext(source) => Error::WithContext { source, context: context.to_owned() },
            Error::WithContext { source, context: _ } => Error::WithContext {
                source,
                context: context.to_owned(),
            },
        }
    }

    /// The internal error behind this error, if any; `Assertion("")` for user errors.
    pub open spec fn spec_source(&self) -> InternalError {
        match self {
            Error::User(_) => InternalError::Assertion(""),
            Error::NoContext(source) => *source,
            Error::WithContext { source, .. } => *source,
        }
    }

    /// The user error held, if this is one.
    pub fn as_user(&self) -> (r: Option<UserError>)
        ensures
            r matches Some(u) ==> *self matches Error::User(v) && u == v,
            r is None ==> !(*self is User),
    {
        match self {
            Error::User(u) => Some(*u),
            _ => None,
        }
    }
}

} // verus!
