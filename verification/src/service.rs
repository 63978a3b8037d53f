//! Service-level error taxonomy and its mapping to statuses and messages.

use vstd::prelude::*;

use crate::text::str_concat;

verus! {

/// The four error kinds a service call can surface.  Adapters map them to
/// HTTP statuses through [`ServiceError::status`].
#[derive(Debug)]
pub enum ServiceError {
    /// The client payload was malformed: not a JSON object, empty document,
    /// bad query syntax, or a missing path parameter.
    InvalidRequest(String),
    /// Any other infrastructure failure; `id` correlates logs with responses.
    InternalError { id: String },
    /// A downstream batch call left items unprocessed; the client retries.
    RateLimit,
    /// No schema configuration for the index, or a strict lookup missed.
    NotFound(String),
}

impl ServiceError {
    pub open spec fn spec_status(&self) -> u16 {
        match self {
            ServiceError::InvalidRequest(_) => 400,
            ServiceError::InternalError { .. } => 500,
            ServiceError::RateLimit => 429,
            ServiceError::NotFound(_) => 404,
        }
    }

    pub open spec fn spec_message(&self) -> Seq<char> {
        match self {
            ServiceError::InvalidRequest(m) => m@,
            ServiceError::InternalError { id } => "Internal server error [id = "@ + id@ + "]"@,
            ServiceError::RateLimit => "Too many requests"@,
            ServiceError::NotFound(m) => m@,
        }
    }

    pub fn invalid_request(message: &str) -> (r: ServiceError)
        ensures
            r matches ServiceError::InvalidRequest(m) && m@ == message@,
    {
        ServiceError::InvalidRequest(message.to_owned())
    }

    pub fn not_found(message: &str) -> (r: ServiceError)
        ensures
            r matches ServiceError::NotFound(m) && m@ == message@,
    {
        ServiceError::NotFound(message.to_owned())
    }

    pub fn rate_limit() -> (r: ServiceError)
        ensures
            r == ServiceError::RateLimit,
    {
        ServiceError::RateLimit
    }

    /// An infrastructure failure under a fresh correlation id.  The source
    /// text is not kept here; adapters log it against the id before
    /// mapping the error out.
    pub fn internal_error(_source_message: &str) -> (r: ServiceError)
        ensures
            r matches ServiceError::InternalError { id: _ },
    {
        let id = crate::util::generate_id();
        ServiceError::InternalError { id }
    }

    /// The HTTP status this error maps to.
    pub fn status(&self) -> (r: u16)
        ensures
            r == self.spec_status(),
    {
        match self {
            ServiceError::InvalidRequest(_) => 400,
            ServiceError::InternalError { .. } => 500,
            ServiceError::RateLimit => 429,
            ServiceError::NotFound(_) => 404,
        }
    }

    /// The user-visible message body for this error.
    pub fn message(self) -> (r: String)
        ensures
            r@ == self.spec_message(),
    {
        match self {
            ServiceError::InternalError { id } => {
                let mut m = str_concat("Internal server error [id = ", id.as_str());
                m.push_str("]");
                m
            },
            ServiceError::InvalidRequest(message) => message,
            ServiceError::RateLimit => "Too many requests".to_owned(),
            ServiceError::NotFound(message) => message,
        }
    }
}

impl PartialEq for ServiceError {
    fn eq(&self, other: &ServiceError) -> (r: bool) {
        match (self, other) {
            (ServiceError::InvalidRequest(a), ServiceError::InvalidRequest(b)) => a.eq(b),
            (
                ServiceError::InternalError { id: a },
                ServiceError::InternalError { id: b },
            ) => a.eq(b),
            (ServiceError::RateLimit, ServiceError::RateLimit) => true,
            (ServiceError::NotFound(a), ServiceError::NotFound(b)) => a.eq(b),
            _ => false,
        }
    }
}

impl vstd::std_specs::cmp::PartialEqSpecImpl for ServiceError {
    open spec fn obeys_eq_spec() -> bool {
        true
    }

    open spec fn eq_spec(&self, other: &ServiceError) -> bool {
        match (self, other) {
            (ServiceError::InvalidRequest(a), ServiceError::InvalidRequest(b)) => a@ == b@,
            (
                ServiceError::InternalError { id: a },
                ServiceError::InternalError { id: b },
            ) => a@ == b@,
            (ServiceError::RateLimit, ServiceError::RateLimit) => true,
            (ServiceError::NotFound(a), ServiceError::NotFound(b)) => a@ == b@,
            _ => false,
        }
    }
}

} // verus!
