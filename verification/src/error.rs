//! The error taxonomy of the receiver and its mapping to transport statuses.

use vstd::prelude::*;

verus! {

/// Why an input was refused as malformed.
#[derive(Clone, Copy, PartialEq, Eq, Structural, Debug)]
pub enum BadInput {
    /// `source` or `target` does not parse as an absolute URL.
    BadUrl,
    /// A URL scheme other than `http` or `https`.
    BadScheme,
    /// `source` and `target` are the same resource.
    SelfReference,
    /// `target`'s host differs from the domain of the route.
    DomainMismatch,
    /// The request body did not carry the expected content type.
    BadContentType,
    /// A mention identifier that does not parse.
    BadIdentifier,
}

/// Everything that can go wrong in the receiver.  Validation failures and
/// missing records are expected and map to client statuses; the rest are
/// server failures whose detail stays on the server side.
#[derive(Clone, Copy, PartialEq, Eq, Structural, Debug)]
pub enum Error {
    /// The route's domain is not in the configured allow-list.
    NotAllowedDomain,
    /// The request input is malformed.
    MalformedInput(BadInput),
    /// No such record, or no such route.
    NotFound,
    /// An underlying store failure, such as a constraint violation.
    StoreError,
    /// The store's schema cannot be brought to the known version; startup
    /// must abort.
    MigrationFatal,
    /// A presentation-layer failure surfaced through the same channel.
    RenderError,
}

impl Error {
    /// The HTTP status the transport layer answers for this error.
    pub open spec fn status_spec(self) -> u16 {
        match self {
            Error::NotAllowedDomain => 403,
            Error::MalformedInput(_) => 400,
            Error::NotFound => 404,
            Error::StoreError => 500,
            Error::MigrationFatal => 500,
            Error::RenderError => 500,
        }
    }

    /// The HTTP status the transport layer answers for this error.
    pub fn status(&self) -> (s: u16)
        ensures
            s == self.status_spec(),
    {
        match self {
            Error::NotAllowedDomain => 403,
            Error::MalformedInput(_) => 400,
            Error::NotFound => 404,
            Error::StoreError => 500,
            Error::MigrationFatal => 500,
            Error::RenderError => 500,
        }
    }
}

} // verus!
