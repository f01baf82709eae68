//! Error kinds of the core and their fixed outward rendering.
//!
//! Components return a typed failure. The boundary maps each kind to one
//! status code and one message; for storage and internal failures the message
//! is generic, so that no internal detail reaches the caller.

use vstd::prelude::*;

verus! {

/// The five kinds of failure the boundary distinguishes.
#[derive(Clone, Copy, Debug, PartialEq, Eq, Structural)]
pub enum ErrorKind {
    /// Malformed input.
    Validation,
    /// Bad credentials, or a missing, invalid or expired token.
    Authentication,
    /// The resource is absent, or the caller may not see it.
    NotFound,
    /// The input collides with what is already stored.
    Conflict,
    /// The hashing engine or the store failed.
    Internal,
}

/// A failure of a core operation.
#[derive(Debug)]
pub enum AppError {
    /// The store failed; the detail stays with the boundary's log.
    Database,
    Auth(String),
    NotFound(String),
    Validation(String),
    Conflict(String),
    Internal,
}

/// What the caller is told of a failure.
#[derive(Debug)]
pub struct ErrorResponse {
    /// The status code of the response.
    pub status: u16,
    /// The message, sent as the field `error` of the response's body.
    pub error: String,
}

impl AppError {
    /// The kind under which the boundary reports this failure.
    pub open spec fn spec_kind(&self) -> ErrorKind {
        match self {
            AppError::Database => ErrorKind::Internal,
            AppError::Auth(_) => ErrorKind::Authentication,
            AppError::NotFound(_) => ErrorKind::NotFound,
            AppError::Validation(_) => ErrorKind::Validation,
            AppError::Conflict(_) => ErrorKind::Conflict,
            AppError::Internal => ErrorKind::Internal,
        }
    }

    /// The text shown to the caller: the carried message, or a fixed phrase
    /// for the two failures whose cause is internal.
    pub open spec fn spec_message(&self) -> Seq<char> {
        match self {
            AppError::Database => "Database error"@,
            AppError::Auth(m) => m@,
            AppError::NotFound(m) => m@,
            AppError::Validation(m) => m@,
            AppError::Conflict(m) => m@,
            AppError::Internal => "Internal server error"@,
        }
    }

    #[verifier::when_used_as_spec(spec_kind)]
    pub fn kind(&self) -> (k: ErrorKind)
        ensures
            k == self.spec_kind(),
    {
        match self {
            AppError::Database => ErrorKind::Internal,
            AppError::Auth(_) => ErrorKind::Authentication,
            AppError::NotFound(_) => ErrorKind::NotFound,
            AppError::Validation(_) => ErrorKind::Validation,
            AppError::Conflict(_) => ErrorKind::Conflict,
            AppError::Internal => ErrorKind::Internal,
        }
    }

    /// The status code of the response that reports this failure.
    pub fn status_code(&self) -> (code: u16)
        ensures
            code == spec_status_of(self.spec_kind()),
    {
        status_of(self.kind())
    }

    pub fn message(&self) -> (text: String)
        ensures
            text@ == self.spec_message(),
    {
        match self {
            AppError::Database => "Database error".to_owned(),
            AppError::Auth(m) => m.clone(),
            AppError::NotFound(m) => m.clone(),
            AppError::Validation(m) => m.clone(),
            AppError::Conflict(m) => m.clone(),
            AppError::Internal => "Internal server error".to_owned(),
        }
    }

    /// The status and the message of the response that reports this failure.
    pub fn into_response(self) -> (response: ErrorResponse)
        ensures
            response.status == spec_status_of(self.spec_kind()),
            response.error@ == self.spec_message(),
    {
        ErrorResponse { status: self.status_code(), error: self.message() }
    }

}

impl Clone for AppError {
    fn clone(&self) -> (copy: Self)
        ensures
            copy == *self,
    {
        match self {
            AppError::Database => AppError::Database,
            AppError::Auth(m) => AppError::Auth(m.clone()),
            AppError::NotFound(m) => AppError::NotFound(m.clone()),
            AppError::Validation(m) => AppError::Validation(m.clone()),
            AppError::Conflict(m) => AppError::Conflict(m.clone()),
            AppError::Internal => AppError::Internal,
        }
    }
}

/// Why the caller of a request could not be identified.
#[derive(Clone, Copy, Debug, PartialEq, Eq, Structural)]
pub enum AuthFailure {
    /// No credential in the designated header, or not in the bearer form.
    MissingOrInvalidCredential,
    /// The token's signature, algorithm, encoding or expiry did not hold.
    InvalidToken,
    /// The token is sound but its subject is not an identifier.
    InvalidCredential,
}

impl AuthFailure {
    /// The message that reports this failure.
    pub open spec fn spec_message(&self) -> Seq<char> {
        match self {
            AuthFailure::MissingOrInvalidCredential => "Missing or invalid authorization header"@,
            AuthFailure::InvalidToken => "Invalid token"@,
            AuthFailure::InvalidCredential => "Invalid user ID in token"@,
        }
    }

    /// The authentication error that reports this failure.
    pub fn to_app_error(&self) -> (e: AppError)
        ensures
            e matches AppError::Auth(m) && m@ == self.spec_message(),
    {
        match self {
            AuthFailure::MissingOrInvalidCredential => AppError::Auth(
                "Missing or invalid authorization header".to_owned(),
            ),
            AuthFailure::InvalidToken => AppError::Auth("Invalid token".to_owned()),
            AuthFailure::InvalidCredential => AppError::Auth(
                "Invalid user ID in token".to_owned(),
            ),
        }
    }
}

/// The fixed status code of each kind.
pub open spec fn spec_status_of(kind: ErrorKind) -> u16 {
    match kind {
        ErrorKind::Validation => 400,
        ErrorKind::Authentication => 401,
        ErrorKind::NotFound => 404,
        ErrorKind::Conflict => 409,
        ErrorKind::Internal => 500,
    }
}

#[verifier::when_used_as_spec(spec_status_of)]
pub fn status_of(kind: ErrorKind) -> (code: u16)
    ensures
        code == spec_status_of(kind),
{
    match kind {
        ErrorKind::Validation => 400,
        ErrorKind::Authentication => 401,
        ErrorKind::NotFound => 404,
        ErrorKind::Conflict => 409,
        ErrorKind::Internal => 500,
    }
}

/// Every failure is reported with a client or server error status, and only
/// the internal kind with a server one.
pub proof fn status_is_an_error_code(kind: ErrorKind)
    ensures
        400 <= spec_status_of(kind) <= 500,
        spec_status_of(kind) == 500 <==> kind == ErrorKind::Internal,
{
}

/// Distinct kinds have distinct status codes.
pub proof fn status_tells_kinds_apart(a: ErrorKind, b: ErrorKind)
    ensures
        spec_status_of(a) == spec_status_of(b) <==> a == b,
{
}

} // verus!
