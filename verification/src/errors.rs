//! The closed error taxonomy of the pipeline, one tagged union per layer
//! (authentication, request, application), with a total, centralized mapping
//! from every variant to an HTTP status and an error-response body.

use vstd::prelude::*;

verus! {

/// HTTP status for a rejected request body or header.
pub const STATUS_BAD_REQUEST: u16 = 400;

/// HTTP status for a missing or unacceptable identity.
pub const STATUS_UNAUTHORIZED: u16 = 401;

/// HTTP status for an authenticated caller with insufficient privilege.
pub const STATUS_FORBIDDEN: u16 = 403;

/// HTTP status for an absent resource.
pub const STATUS_NOT_FOUND: u16 = 404;

/// HTTP status for a uniqueness violation reported by storage.
pub const STATUS_CONFLICT: u16 = 409;

/// HTTP status for any internal failure that must stay opaque to callers.
pub const STATUS_INTERNAL_SERVER_ERROR: u16 = 500;

/// Failures of token issuance and verification.
///
/// `InvalidToken` covers a missing, malformed, bad-signature or bad-audience
/// token; `ExpiredToken` is raised only when the signature is valid and the
/// expiry check alone fails; `SerializationError` marks internal faults
/// (signing failed, or a signed token carries an unparseable subject).
#[derive(Debug, Clone, PartialEq, Eq)]
pub enum AuthenticationError {
    InvalidToken,
    SerializationError,
    ExpiredToken,
}

impl AuthenticationError {
    /// The HTTP status this error is reported with: 401 for token problems
    /// the caller can act on, 500 for internal faults.
    pub fn status_code(&self) -> (s: u16)
        ensures
            s == match self {
                AuthenticationError::InvalidToken => STATUS_UNAUTHORIZED,
                AuthenticationError::SerializationError => STATUS_INTERNAL_SERVER_ERROR,
                AuthenticationError::ExpiredToken => STATUS_UNAUTHORIZED,
            },
    {
        match self {
            AuthenticationError::InvalidToken => STATUS_UNAUTHORIZED,
            AuthenticationError::SerializationError => STATUS_INTERNAL_SERVER_ERROR,
            AuthenticationError::ExpiredToken => STATUS_UNAUTHORIZED,
        }
    }
}

/// One field-tagged message of a validation failure.
#[derive(Debug, Clone, PartialEq, Eq)]
pub struct ErrorMessage {
    pub field: Option<String>,
    pub message: String,
}

/// Failures of request decoding, before any handler runs.
///
/// `JsonRejection` passes through the status and message of the body-parsing
/// layer; the header variants name the missing or malformed header.
#[derive(Debug, Clone, PartialEq, Eq)]
pub enum RequestError {
    ValidationError(Vec<ErrorMessage>),
    JsonRejection(u16, String),
    HeaderNotFound(String),
    InvalidUUIDHeaderFormat(String),
}

impl RequestError {
    /// The HTTP status this error is reported with: the parser's own status
    /// for a rejected body, 400 otherwise.
    pub fn status_code(&self) -> (s: u16)
        ensures
            s == match self {
                RequestError::ValidationError(_) => STATUS_BAD_REQUEST,
                RequestError::JsonRejection(status, _) => *status,
                RequestError::HeaderNotFound(_) => STATUS_BAD_REQUEST,
                RequestError::InvalidUUIDHeaderFormat(_) => STATUS_BAD_REQUEST,
            },
    {
        match self {
            RequestError::ValidationError(_) => STATUS_BAD_REQUEST,
            RequestError::JsonRejection(status, _) => *status,
            RequestError::HeaderNotFound(_) => STATUS_BAD_REQUEST,
            RequestError::InvalidUUIDHeaderFormat(_) => STATUS_BAD_REQUEST,
        }
    }
}

/// Failures raised by handlers and the authorization stages.
#[derive(Debug, Clone, PartialEq, Eq)]
pub enum ApplicationError {
    ConflictError,
    NotFound,
    InternalServerError,
    LoginError,
    Unauthorized,
    Forbidden,
    LimitReached(String),
}

impl ApplicationError {
    /// The HTTP status this error is reported with.
    pub fn status_code(&self) -> (s: u16)
        ensures
            s == match self {
                ApplicationError::ConflictError => STATUS_CONFLICT,
                ApplicationError::NotFound => STATUS_NOT_FOUND,
                ApplicationError::InternalServerError => STATUS_INTERNAL_SERVER_ERROR,
                ApplicationError::LoginError => STATUS_BAD_REQUEST,
                ApplicationError::Unauthorized => STATUS_UNAUTHORIZED,
                ApplicationError::Forbidden => STATUS_FORBIDDEN,
                ApplicationError::LimitReached(_) => STATUS_FORBIDDEN,
            },
    {
        match self {
            ApplicationError::ConflictError => STATUS_CONFLICT,
            ApplicationError::NotFound => STATUS_NOT_FOUND,
            ApplicationError::InternalServerError => STATUS_INTERNAL_SERVER_ERROR,
            ApplicationError::LoginError => STATUS_BAD_REQUEST,
            ApplicationError::Unauthorized => STATUS_UNAUTHORIZED,
            ApplicationError::Forbidden => STATUS_FORBIDDEN,
            ApplicationError::LimitReached(_) => STATUS_FORBIDDEN,
        }
    }
}

/// The union of every error a pipeline stage or handler can produce.
#[derive(Debug, Clone, PartialEq, Eq)]
pub enum ApiError {
    ApplicationError(ApplicationError),
    RequestError(RequestError),
    AuthenticationError(AuthenticationError),
}

impl ApiError {
    /// The HTTP status of the wrapped error.
    pub fn status_code(&self) -> (s: u16)
        ensures
            s == match self {
                ApiError::ApplicationError(e) => match e {
                    ApplicationError::ConflictError => STATUS_CONFLICT,
                    ApplicationError::NotFound => STATUS_NOT_FOUND,
                    ApplicationError::InternalServerError => STATUS_INTERNAL_SERVER_ERROR,
                    ApplicationError::LoginError => STATUS_BAD_REQUEST,
                    ApplicationError::Unauthorized => STATUS_UNAUTHORIZED,
                    ApplicationError::Forbidden => STATUS_FORBIDDEN,
                    ApplicationError::LimitReached(_) => STATUS_FORBIDDEN,
                },
                ApiError::RequestError(e) => match e {
                    RequestError::ValidationError(_) => STATUS_BAD_REQUEST,
                    RequestError::JsonRejection(status, _) => *status,
                    RequestError::HeaderNotFound(_) => STATUS_BAD_REQUEST,
                    RequestError::InvalidUUIDHeaderFormat(_) => STATUS_BAD_REQUEST,
                },
                ApiError::AuthenticationError(e) => match e {
                    AuthenticationError::InvalidToken => STATUS_UNAUTHORIZED,
                    AuthenticationError::SerializationError => STATUS_INTERNAL_SERVER_ERROR,
                    AuthenticationError::ExpiredToken => STATUS_UNAUTHORIZED,
                },
            },
    {
        match self {
            ApiError::ApplicationError(e) => e.status_code(),
            ApiError::RequestError(e) => e.status_code(),
            ApiError::AuthenticationError(e) => e.status_code(),
        }
    }
}

impl From<RequestError> for ApiError {
    fn from(error: RequestError) -> (r: ApiError) {
        ApiError::RequestError(error)
    }
}

impl vstd::std_specs::convert::FromSpecImpl<RequestError> for ApiError {
    open spec fn obeys_from_spec() -> bool {
        true
    }

    open spec fn from_spec(error: RequestError) -> ApiError {
        ApiError::RequestError(error)
    }
}

impl From<ApplicationError> for ApiError {
    fn from(error: ApplicationError) -> (r: ApiError) {
        ApiError::ApplicationError(error)
    }
}

impl vstd::std_specs::convert::FromSpecImpl<ApplicationError> for ApiError {
    open spec fn obeys_from_spec() -> bool {
        true
    }

    open spec fn from_spec(error: ApplicationError) -> ApiError {
        ApiError::ApplicationError(error)
    }
}

impl From<AuthenticationError> for ApiError {
    fn from(error: AuthenticationError) -> (r: ApiError) {
        ApiError::AuthenticationError(error)
    }
}

impl vstd::std_specs::convert::FromSpecImpl<AuthenticationError> for ApiError {
    open spec fn obeys_from_spec() -> bool {
        true
    }

    open spec fn from_spec(error: AuthenticationError) -> ApiError {
        ApiError::AuthenticationError(error)
    }
}

} // verus!
// The storage layer's failures, reduced to what the mapping below reads.
verus! {

/// A failure of the store or its connection pool, as the data layer reports
/// it: the pool failed, a uniqueness constraint was violated, or the query
/// failed some other way.
#[derive(Debug, Clone, Copy, PartialEq, Eq, Structural)]
pub enum DbError {
    PoolError,
    UniqueViolation,
    OtherQueryError,
}

impl From<DbError> for ApplicationError {
    /// Storage detail never crosses the trust boundary: a uniqueness
    /// violation becomes the conflict answer, everything else the opaque
    /// internal error.
    fn from(error: DbError) -> (r: ApplicationError) {
        match error {
            DbError::PoolError => ApplicationError::InternalServerError,
            DbError::UniqueViolation => ApplicationError::ConflictError,
            DbError::OtherQueryError => ApplicationError::InternalServerError,
        }
    }
}

impl vstd::std_specs::convert::FromSpecImpl<DbError> for ApplicationError {
    open spec fn obeys_from_spec() -> bool {
        true
    }

    open spec fn from_spec(error: DbError) -> ApplicationError {
        match error {
            DbError::PoolError => ApplicationError::InternalServerError,
            DbError::UniqueViolation => ApplicationError::ConflictError,
            DbError::OtherQueryError => ApplicationError::InternalServerError,
        }
    }
}

} // verus!
