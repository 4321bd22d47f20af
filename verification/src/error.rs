//! The error taxonomy of the core, and its mapping to HTTP status codes.
//!
//! Every verification failure on the credential paths collapses to
//! `Unauthorized` with no distinguishing detail, so a client cannot probe
//! which usernames exist. `Forbidden` is for a caller who authenticated but
//! asked to act outside their own username scope; at the boundary both map to
//! status 401 so that nothing leaks. Idempotent no-ops (duplicate adds,
//! removes of absent rows, replayed uploads) are successes, never errors.

use vstd::prelude::*;

verus! {

/// One error kind per protocol outcome. `Conflict` is reserved: the merge
/// operations are designed so that it is never needed today.
#[derive(Clone, Copy, Debug, PartialEq, Eq, Structural)]
pub enum Error {
    /// Bad, missing or mismatched credentials or session.
    Unauthorized,
    /// Authenticated, but acting outside the caller's own username scope.
    Forbidden,
    /// Unknown device or resource where the protocol expects 404 semantics.
    NotFound,
    /// Malformed path segment, e.g. a username segment without its `.json`
    /// suffix.
    BadRequest,
    /// Reserved for future use.
    Conflict,
    /// Storage or transaction failure.
    Internal,
}

impl Error {
    /// The HTTP status the boundary layer answers with. Unauthorized and
    /// Forbidden deliberately share 401 so no detail about why a request was
    /// refused reaches the client; a malformed suffix is 422.
    pub fn status_code(&self) -> (code: u16)
        ensures
            code == self.spec_status_code(),
    {
        match self {
            Error::Unauthorized => 401,
            Error::Forbidden => 401,
            Error::NotFound => 404,
            Error::BadRequest => 422,
            Error::Conflict => 409,
            Error::Internal => 500,
        }
    }

    pub open spec fn spec_status_code(&self) -> u16 {
        match self {
            Error::Unauthorized => 401,
            Error::Forbidden => 401,
            Error::NotFound => 404,
            Error::BadRequest => 422,
            Error::Conflict => 409,
            Error::Internal => 500,
        }
    }
}

} // verus!
