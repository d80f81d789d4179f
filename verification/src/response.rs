//! The error-response body every failed request is answered with, its
//! builder, and the total mapping from each error variant to a status and
//! body. The body never carries internal error detail: only a support
//! contact and, for some variants, field-tagged messages.

use vstd::prelude::*;
use crate::errors::{ApiError, ApplicationError, AuthenticationError, ErrorMessage, RequestError};
use crate::errors::{STATUS_BAD_REQUEST, STATUS_INTERNAL_SERVER_ERROR};

verus! {

/// The JSON-shaped error body: `{support_contact, errors?}`.
#[derive(Debug, Clone, PartialEq, Eq)]
pub struct ErrorResponse {
    pub status_code: u16,
    pub support_contact: String,
    pub errors: Option<Vec<ErrorMessage>>,
}

/// The support contact every error body carries.
pub open spec fn spec_support_contact() -> Seq<char> {
    "support@swiftapi.com"@
}

/// The message naming a header that a required-header lookup did not find.
pub open spec fn spec_header_not_found_message(header_name: Seq<char>) -> Seq<char> {
    "Required header "@ + header_name + " is missing"@
}

/// The message naming a header whose value is not a well-formed UUID.
pub open spec fn spec_invalid_uuid_header_message(header_name: Seq<char>) -> Seq<char> {
    "Header "@ + header_name + " must be in UUID format"@
}

/// The general message a rejected token is answered with.
pub open spec fn spec_invalid_token_message() -> Seq<char> {
    "Invalid authentication token"@
}

/// The general message an expired session is answered with.
pub open spec fn spec_expired_token_message() -> Seq<char> {
    "Authentication token has expired"@
}

impl ErrorResponse {
    /// A body with the default support contact and the one given message,
    /// untagged by a field.
    pub fn build(status_code: u16, message: String) -> (r: ErrorResponse)
        ensures
            r.status_code == status_code,
            r.support_contact@ == spec_support_contact(),
            r.errors matches Some(msgs) && msgs@.len() == 1
                && msgs@[0].field is None && msgs@[0].message@ == message@,
    {
        ErrorResponse::builder()
            .status_code(status_code)
            .error(ErrorMessage { field: None, message })
            .build()
    }

    /// A fresh builder, preloaded with the defaults.
    pub fn builder() -> (r: ErrorResponseBuilder)
        ensures
            r.status_code == STATUS_INTERNAL_SERVER_ERROR,
            r.support_contact@ == spec_support_contact(),
            r.errors is None,
    {
        ErrorResponseBuilder::default()
    }
}

/// Step-by-step construction of an [`ErrorResponse`].
pub struct ErrorResponseBuilder {
    pub status_code: u16,
    pub support_contact: String,
    pub errors: Option<Vec<ErrorMessage>>,
}

impl ErrorResponseBuilder {
    /// The starting point: internal-server-error status, the default support
    /// contact, and no messages.
    pub fn default() -> (r: Self)
        ensures
            r.status_code == STATUS_INTERNAL_SERVER_ERROR,
            r.support_contact@ == spec_support_contact(),
            r.errors is None,
    {
        let support_contact: String = "support@swiftapi.com".to_owned();
        proof {
            reveal_strlit("support@swiftapi.com");
        }
        Self {
            status_code: STATUS_INTERNAL_SERVER_ERROR,
            support_contact,
            errors: None,
        }
    }

    /// Replaces the status code.
    pub fn status_code(self, status_code: u16) -> (r: Self)
        ensures
            r.status_code == status_code,
            r.support_contact == self.support_contact,
            r.errors == self.errors,
    {
        Self { status_code, ..self }
    }

    /// Replaces the messages with the one given.
    pub fn error(self, error: ErrorMessage) -> (r: Self)
        ensures
            r.status_code == self.status_code,
            r.support_contact == self.support_contact,
            r.errors matches Some(msgs) && msgs@.len() == 1 && msgs@[0] == error,
    {
        let errors = vec![error];
        Self { errors: Some(errors), ..self }
    }

    /// Replaces the messages with the list given.
    pub fn errors(self, errors: Vec<ErrorMessage>) -> (r: Self)
        ensures
            r.status_code == self.status_code,
            r.support_contact == self.support_contact,
            r.errors matches Some(msgs) && msgs == errors,
    {
        Self { errors: Some(errors), ..self }
    }

    /// The finished response.
    pub fn build(self) -> (r: ErrorResponse)
        ensures
            r.status_code == self.status_code,
            r.support_contact == self.support_contact,
            r.errors == self.errors,
    {
        ErrorResponse {
            status_code: self.status_code,
            support_contact: self.support_contact,
            errors: self.errors,
        }
    }
}

impl RequestError {
    /// The response this request error is answered with: the field-tagged
    /// messages for a validation failure, the parser's own status and text
    /// for a rejected body, and a message naming the header otherwise.
    pub fn into_error_response(self) -> (r: ErrorResponse)
        ensures
            r.status_code == self.status_code_spec(),
            r.support_contact@ == spec_support_contact(),
            match self {
                RequestError::ValidationError(msgs) => r.errors == Some(msgs),
                RequestError::JsonRejection(_, text) => (r.errors matches Some(m)
                    && m@.len() == 1 && m@[0].field is None && m@[0].message@ == text@),
                RequestError::HeaderNotFound(h) => (r.errors matches Some(m)
                    && m@.len() == 1 && m@[0].field is None
                    && m@[0].message@ == spec_header_not_found_message(h@)),
                RequestError::InvalidUUIDHeaderFormat(h) => (r.errors matches Some(m)
                    && m@.len() == 1 && m@[0].field is None
                    && m@[0].message@ == spec_invalid_uuid_header_message(h@)),
            },
    {
        match self {
            RequestError::ValidationError(messages) => ErrorResponse::builder()
                .status_code(STATUS_BAD_REQUEST)
                .errors(messages)
                .build(),
            RequestError::JsonRejection(status, text) => ErrorResponse::build(status, text),
            RequestError::HeaderNotFound(header_name) => {
                proof {
                    reveal_strlit("Required header ");
                    reveal_strlit(" is missing");
                }
                let mut message: String = "Required header ".to_owned();
                message.append(header_name.as_str());
                message.append(" is missing");
                ErrorResponse::build(STATUS_BAD_REQUEST, message)
            },
            RequestError::InvalidUUIDHeaderFormat(header_name) => {
                proof {
                    reveal_strlit("Header ");
                    reveal_strlit(" must be in UUID format");
                }
                let mut message: String = "Header ".to_owned();
                message.append(header_name.as_str());
                message.append(" must be in UUID format");
                ErrorResponse::build(STATUS_BAD_REQUEST, message)
            },
        }
    }

    /// The status this error maps to, as a spec-level value.
    pub open spec fn status_code_spec(&self) -> u16 {
        match self {
            RequestError::ValidationError(_) => STATUS_BAD_REQUEST,
            RequestError::JsonRejection(status, _) => *status,
            RequestError::HeaderNotFound(_) => STATUS_BAD_REQUEST,
            RequestError::InvalidUUIDHeaderFormat(_) => STATUS_BAD_REQUEST,
        }
    }
}

impl ApplicationError {
    /// The response this application error is answered with. Only
    /// `LimitReached` carries its reason to the caller; every other variant
    /// answers with its status and the bare default body.
    pub fn into_error_response(self) -> (r: ErrorResponse)
        ensures
            r.status_code == match self {
                ApplicationError::ConflictError => crate::errors::STATUS_CONFLICT,
                ApplicationError::NotFound => crate::errors::STATUS_NOT_FOUND,
                ApplicationError::InternalServerError => STATUS_INTERNAL_SERVER_ERROR,
                ApplicationError::LoginError => STATUS_BAD_REQUEST,
                ApplicationError::Unauthorized => crate::errors::STATUS_UNAUTHORIZED,
                ApplicationError::Forbidden => crate::errors::STATUS_FORBIDDEN,
                ApplicationError::LimitReached(_) => crate::errors::STATUS_FORBIDDEN,
            },
            r.support_contact@ == spec_support_contact(),
            match self {
                ApplicationError::LimitReached(reason) => (r.errors matches Some(m)
                    && m@.len() == 1 && m@[0].field is None && m@[0].message@ == reason@),
                _ => r.errors is None,
            },
    {
        let status = self.status_code();
        match self {
            ApplicationError::LimitReached(message) => ErrorResponse::build(status, message),
            _ => ErrorResponse::builder().status_code(status).build(),
        }
    }
}

impl AuthenticationError {
    /// The response this authentication error is answered with: a 401 whose
    /// body carries one general, untagged message telling the caller to log
    /// in again or that the session expired; an internal fault answers 500
    /// with the bare body, never the internal detail.
    pub fn into_error_response(self) -> (r: ErrorResponse)
        ensures
            r.status_code == match self {
                AuthenticationError::InvalidToken => crate::errors::STATUS_UNAUTHORIZED,
                AuthenticationError::SerializationError => STATUS_INTERNAL_SERVER_ERROR,
                AuthenticationError::ExpiredToken => crate::errors::STATUS_UNAUTHORIZED,
            },
            r.support_contact@ == spec_support_contact(),
            match self {
                AuthenticationError::InvalidToken => (r.errors matches Some(m) && m@.len() == 1
                    && m@[0].field is None && m@[0].message@ == spec_invalid_token_message()),
                AuthenticationError::ExpiredToken => (r.errors matches Some(m) && m@.len() == 1
                    && m@[0].field is None && m@[0].message@ == spec_expired_token_message()),
                AuthenticationError::SerializationError => r.errors is None,
            },
    {
        let status = self.status_code();
        match self {
            AuthenticationError::InvalidToken => {
                proof {
                    reveal_strlit("Invalid authentication token");
                }
                ErrorResponse::build(status, "Invalid authentication token".to_owned())
            },
            AuthenticationError::ExpiredToken => {
                proof {
                    reveal_strlit("Authentication token has expired");
                }
                ErrorResponse::build(status, "Authentication token has expired".to_owned())
            },
            AuthenticationError::SerializationError => ErrorResponse::builder().status_code(
                status,
            ).build(),
        }
    }
}

impl ApiError {
    /// The response of the wrapped error: the mapping is total, every
    /// variant has a defined response.
    pub fn into_error_response(self) -> (r: ErrorResponse)
        ensures
            r.support_contact@ == spec_support_contact(),
            match self {
                ApiError::ApplicationError(e) => r.status_code == match e {
                    ApplicationError::ConflictError => crate::errors::STATUS_CONFLICT,
                    ApplicationError::NotFound => crate::errors::STATUS_NOT_FOUND,
                    ApplicationError::InternalServerError => STATUS_INTERNAL_SERVER_ERROR,
                    ApplicationError::LoginError => STATUS_BAD_REQUEST,
                    ApplicationError::Unauthorized => crate::errors::STATUS_UNAUTHORIZED,
                    ApplicationError::Forbidden => crate::errors::STATUS_FORBIDDEN,
                    ApplicationError::LimitReached(_) => crate::errors::STATUS_FORBIDDEN,
                },
                ApiError::RequestError(e) => r.status_code == e.status_code_spec(),
                ApiError::AuthenticationError(e) => r.status_code == match e {
                    AuthenticationError::InvalidToken => crate::errors::STATUS_UNAUTHORIZED,
                    AuthenticationError::SerializationError => STATUS_INTERNAL_SERVER_ERROR,
                    AuthenticationError::ExpiredToken => crate::errors::STATUS_UNAUTHORIZED,
                },
            },
            match self {
                ApiError::AuthenticationError(e) => match e {
                    AuthenticationError::InvalidToken => (r.errors matches Some(m) && m@.len()
                        == 1 && m@[0].field is None && m@[0].message@
                        == spec_invalid_token_message()),
                    AuthenticationError::ExpiredToken => (r.errors matches Some(m) && m@.len()
                        == 1 && m@[0].field is None && m@[0].message@
                        == spec_expired_token_message()),
                    AuthenticationError::SerializationError => r.errors is None,
                },
                _ => true,
            },
    {
        match self {
            ApiError::ApplicationError(e) => e.into_error_response(),
            ApiError::RequestError(e) => e.into_error_response(),
            ApiError::AuthenticationError(e) => e.into_error_response(),
        }
    }
}

} // verus!
