//! The closed error taxonomy and its mapping to client-safe responses.
//!
//! `Error` is everything that can go wrong inside the service; `ClientError`
//! is the only vocabulary ever exposed to callers. Every `Error` variant maps
//! to exactly one (status class, client error) pair; internal detail (such as
//! the id a failed delete asked for) is surfaced separately for logging and
//! never reaches the client body.

use vstd::prelude::*;
use vstd::string::StringExecFns;

verus! {

/// Every failure the service can produce, with per-variant payload where the
/// logs need it. The set is closed: anything unexpected must be added here
/// rather than leak through unmapped.
#[derive(Clone, Copy, Debug, PartialEq, Eq, Structural)]
pub enum Error {
    LoginFail,
    // -- auth errors
    AuthFailNoAuthTokenCookie,
    AuthFailTokenWrongFormat,
    AuthFailCtxNotInRequestExt,
    // -- model errors
    TicketDeleteFailIdNotFound { id: u64 },
}

/// The closed client-facing error vocabulary.
#[allow(non_camel_case_types)]
#[derive(Clone, Copy, Debug, PartialEq, Eq, Structural)]
pub enum ClientError {
    LOGIN_FAIL,
    NO_AUTH,
    INVALID_PARAMS,
    SERVICE_ERROR,
}

/// The HTTP status classes an error can map to.
#[derive(Clone, Copy, Debug, PartialEq, Eq, Structural)]
pub enum StatusClass {
    Forbidden,
    BadRequest,
    InternalServerError,
}

/// The total mapping from internal errors to the client surface: login
/// failures and every auth failure are forbidden, a failed delete is a bad
/// request, and anything else would fall back to an internal server error.
pub open spec fn spec_client_status_and_error(e: Error) -> (StatusClass, ClientError) {
    match e {
        Error::LoginFail => (StatusClass::Forbidden, ClientError::LOGIN_FAIL),
        Error::AuthFailNoAuthTokenCookie
        | Error::AuthFailTokenWrongFormat
        | Error::AuthFailCtxNotInRequestExt => (StatusClass::Forbidden, ClientError::NO_AUTH),
        Error::TicketDeleteFailIdNotFound { .. } => (
            StatusClass::BadRequest,
            ClientError::INVALID_PARAMS,
        ),
    }
}

/// The variant name of an error, as it appears in log lines.
pub open spec fn spec_error_name(e: Error) -> Seq<char> {
    match e {
        Error::LoginFail => "LoginFail"@,
        Error::AuthFailNoAuthTokenCookie => "AuthFailNoAuthTokenCookie"@,
        Error::AuthFailTokenWrongFormat => "AuthFailTokenWrongFormat"@,
        Error::AuthFailCtxNotInRequestExt => "AuthFailCtxNotInRequestExt"@,
        Error::TicketDeleteFailIdNotFound { .. } => "TicketDeleteFailIdNotFound"@,
    }
}

/// The structured payload an error carries, for logging only: the id a failed
/// delete asked for, nothing for the other variants.
pub open spec fn spec_error_data_id(e: Error) -> Option<u64> {
    match e {
        Error::TicketDeleteFailIdNotFound { id } => Some(id),
        _ => None,
    }
}

impl Error {
    /// Project this error onto its client-safe surface.
    pub fn client_status_and_error(&self) -> (r: (StatusClass, ClientError))
        ensures
            r == spec_client_status_and_error(*self),
    {
        match self {
            Self::LoginFail => (StatusClass::Forbidden, ClientError::LOGIN_FAIL),
            Self::AuthFailNoAuthTokenCookie
            | Self::AuthFailTokenWrongFormat
            | Self::AuthFailCtxNotInRequestExt => (StatusClass::Forbidden, ClientError::NO_AUTH),
            Self::TicketDeleteFailIdNotFound { .. } => (
                StatusClass::BadRequest,
                ClientError::INVALID_PARAMS,
            ),
        }
    }

    /// The variant name, for the internal (log-only) error representation.
    pub fn variant_name(&self) -> (r: String)
        ensures
            r@ == spec_error_name(*self),
    {
        match self {
            Self::LoginFail => String::from_str("LoginFail"),
            Self::AuthFailNoAuthTokenCookie => String::from_str("AuthFailNoAuthTokenCookie"),
            Self::AuthFailTokenWrongFormat => String::from_str("AuthFailTokenWrongFormat"),
            Self::AuthFailCtxNotInRequestExt => String::from_str("AuthFailCtxNotInRequestExt"),
            Self::TicketDeleteFailIdNotFound { .. } => String::from_str(
                "TicketDeleteFailIdNotFound",
            ),
        }
    }

    /// The structured payload for logs: the missing id of a failed delete.
    pub fn data_id(&self) -> (r: Option<u64>)
        ensures
            r == spec_error_data_id(*self),
    {
        match self {
            Self::TicketDeleteFailIdNotFound { id } => Some(*id),
            _ => None,
        }
    }
}

/// The client error code, as it appears in client bodies and log lines.
pub open spec fn spec_client_error_name(e: ClientError) -> Seq<char> {
    match e {
        ClientError::LOGIN_FAIL => "LOGIN_FAIL"@,
        ClientError::NO_AUTH => "NO_AUTH"@,
        ClientError::INVALID_PARAMS => "INVALID_PARAMS"@,
        ClientError::SERVICE_ERROR => "SERVICE_ERROR"@,
    }
}

impl ClientError {
    /// The code's spelling in responses and logs.
    pub fn as_code(&self) -> (r: String)
        ensures
            r@ == spec_client_error_name(*self),
    {
        match self {
            Self::LOGIN_FAIL => String::from_str("LOGIN_FAIL"),
            Self::NO_AUTH => String::from_str("NO_AUTH"),
            Self::INVALID_PARAMS => String::from_str("INVALID_PARAMS"),
            Self::SERVICE_ERROR => String::from_str("SERVICE_ERROR"),
        }
    }
}

/// The numeric HTTP status of each status class.
pub open spec fn spec_status_code(s: StatusClass) -> u16 {
    match s {
        StatusClass::Forbidden => 403,
        StatusClass::BadRequest => 400,
        StatusClass::InternalServerError => 500,
    }
}

impl StatusClass {
    /// The numeric HTTP status this class stands for.
    pub fn code(&self) -> (r: u16)
        ensures
            r == spec_status_code(*self),
    {
        match self {
            Self::Forbidden => 403,
            Self::BadRequest => 400,
            Self::InternalServerError => 500,
        }
    }
}

} // verus!
