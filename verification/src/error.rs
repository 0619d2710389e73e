use vstd::prelude::*;

verus! {

/// Internal service error: the fine-grained taxonomy used for logging and
/// for deciding what a request is answered with. Nothing of it crosses the
/// trust boundary directly; it is first mapped to a coarse `ClientError`.
#[derive(Debug, Clone, Copy, PartialEq, Eq, Structural)]
pub enum Error {
    LoginFailed,
    AuthFailedEmptyTokenCookie,
    AuthFailedEmptyCookie,
    AuthFailedInvalidUserIdTokenType,
    DeleteTicketFailed { id: u64 },
    FailedToRequestLog,
}

/// Client-facing error tag: the coarse variant that is safe to expose in a
/// response body.
#[allow(non_camel_case_types)]
#[derive(Debug, Clone, Copy, PartialEq, Eq, Structural)]
pub enum ClientError {
    LOGIN_FAIL,
    NO_AUTH,
    INVALID_PARAMS,
    SERVICE_ERROR,
}

impl Error {
    /// The fixed mapping table from a service error to the HTTP status and
    /// client error it is reported as.
    pub open spec fn spec_client_status_and_error(self) -> (u16, ClientError) {
        match self {
            Error::LoginFailed => (403u16, ClientError::LOGIN_FAIL),
            Error::AuthFailedEmptyTokenCookie => (401u16, ClientError::NO_AUTH),
            Error::AuthFailedEmptyCookie => (401u16, ClientError::NO_AUTH),
            Error::AuthFailedInvalidUserIdTokenType => (401u16, ClientError::NO_AUTH),
            Error::DeleteTicketFailed { .. } => (400u16, ClientError::SERVICE_ERROR),
            Error::FailedToRequestLog => (500u16, ClientError::SERVICE_ERROR),
        }
    }

    /// Derive the HTTP status and client-facing error for this service error,
    /// exactly as the mapping table states it.
    pub fn client_status_and_error(&self) -> (r: (u16, ClientError))
        ensures
            r == self.spec_client_status_and_error(),
    {
        match self {
            Error::LoginFailed => (403, ClientError::LOGIN_FAIL),
            Error::AuthFailedEmptyTokenCookie
            | Error::AuthFailedEmptyCookie
            | Error::AuthFailedInvalidUserIdTokenType => (401, ClientError::NO_AUTH),
            Error::DeleteTicketFailed { .. } => (400, ClientError::SERVICE_ERROR),
            Error::FailedToRequestLog => (500, ClientError::SERVICE_ERROR),
        }
    }

    /// The variant's name, as it appears in log records.
    pub open spec fn spec_tag(self) -> Seq<char> {
        match self {
            Error::LoginFailed => "LoginFailed"@,
            Error::AuthFailedEmptyTokenCookie => "AuthFailedEmptyTokenCookie"@,
            Error::AuthFailedEmptyCookie => "AuthFailedEmptyCookie"@,
            Error::AuthFailedInvalidUserIdTokenType => "AuthFailedInvalidUserIdTokenType"@,
            Error::DeleteTicketFailed { .. } => "DeleteTicketFailed"@,
            Error::FailedToRequestLog => "FailedToRequestLog"@,
        }
    }

    pub fn tag(&self) -> (r: &'static str)
        ensures
            r@ == self.spec_tag(),
    {
        match self {
            Error::LoginFailed => "LoginFailed",
            Error::AuthFailedEmptyTokenCookie => "AuthFailedEmptyTokenCookie",
            Error::AuthFailedEmptyCookie => "AuthFailedEmptyCookie",
            Error::AuthFailedInvalidUserIdTokenType => "AuthFailedInvalidUserIdTokenType",
            Error::DeleteTicketFailed { .. } => "DeleteTicketFailed",
            Error::FailedToRequestLog => "FailedToRequestLog",
        }
    }

    /// The structured payload a variant carries, if any: today only the id of
    /// a failed ticket deletion.
    pub open spec fn spec_error_data(self) -> Option<u64> {
        match self {
            Error::DeleteTicketFailed { id } => Some(id),
            _ => None,
        }
    }

    pub fn error_data(&self) -> (r: Option<u64>)
        ensures
            r == self.spec_error_data(),
    {
        match self {
            Error::DeleteTicketFailed { id } => Some(*id),
            _ => None,
        }
    }
}

impl ClientError {
    /// The tag exposed in the error response body and in log records.
    pub open spec fn spec_tag(self) -> Seq<char> {
        match self {
            ClientError::LOGIN_FAIL => "LOGIN_FAIL"@,
            ClientError::NO_AUTH => "NO_AUTH"@,
            ClientError::INVALID_PARAMS => "INVALID_PARAMS"@,
            ClientError::SERVICE_ERROR => "SERVICE_ERROR"@,
        }
    }

    pub fn tag(&self) -> (r: &'static str)
        ensures
            r@ == self.spec_tag(),
    {
        match self {
            ClientError::LOGIN_FAIL => "LOGIN_FAIL",
            ClientError::NO_AUTH => "NO_AUTH",
            ClientError::INVALID_PARAMS => "INVALID_PARAMS",
            ClientError::SERVICE_ERROR => "SERVICE_ERROR",
        }
    }
}

} // verus!
