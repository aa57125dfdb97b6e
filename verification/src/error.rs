use vstd::prelude::*;

verus! {

/// Everything that can go wrong while one request is bridged to the
/// application.
#[derive(Debug, Clone, Copy, PartialEq, Eq, Structural)]
pub enum AsgiError {
    /// A value handed over by the application does not have the shape that
    /// the ASGI specification requires (a missing or mistyped field).
    PyErr,
    /// The request uses an HTTP version that ASGI has no name for.
    InvalidHttpVersion,
    /// The first message of the application is not `http.response.start`.
    ExpectedResponseStart,
    /// The application finished without sending any message.
    MissingResponse,
    /// A message after the start is not `http.response.body`.
    ExpectedResponseBody,
    /// The collected status could not be turned into an HTTP response.
    FailedToCreateResponse,
    /// A response header name or value is not valid HTTP.
    InvalidHeader,
    /// The percent-decoded request path is not UTF-8.
    InvalidUtf8InPath,
}

/// `400 Bad Request`.
pub const BAD_REQUEST: u16 = 400;

/// `500 Internal Server Error`.
pub const INTERNAL_SERVER_ERROR: u16 = 500;

/// Whether the client is to blame for the error.
pub open spec fn is_client_error(e: AsgiError) -> bool {
    e == AsgiError::InvalidHttpVersion || e == AsgiError::InvalidUtf8InPath
}

/// The text of the answer for an error.
pub open spec fn spec_error_text(e: AsgiError) -> Seq<char> {
    match e {
        AsgiError::InvalidHttpVersion => "Unsupported HTTP version"@,
        AsgiError::InvalidUtf8InPath => "Invalid Utf8 in path"@,
        _ => "Internal Server Error"@,
    }
}

impl AsgiError {
    /// The status code of the answer sent to the client for this error:
    /// `400` for a request the bridge cannot express in ASGI, `500` for
    /// everything that went wrong on the application's side.
    pub fn status_code(&self) -> (code: u16)
        ensures
            is_client_error(*self) ==> code == BAD_REQUEST,
            !is_client_error(*self) ==> code == INTERNAL_SERVER_ERROR,
    {
        match self {
            AsgiError::InvalidHttpVersion | AsgiError::InvalidUtf8InPath => BAD_REQUEST,
            _ => INTERNAL_SERVER_ERROR,
        }
    }

    /// The body text of the answer sent to the client for this error.
    pub fn response_text(&self) -> (text: &'static str)
        ensures
            text@ == spec_error_text(*self),
    {
        match self {
            AsgiError::InvalidHttpVersion => "Unsupported HTTP version",
            AsgiError::InvalidUtf8InPath => "Invalid Utf8 in path",
            _ => "Internal Server Error",
        }
    }
}

} // verus!
