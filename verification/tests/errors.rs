use parviocula::AsgiError;

#[test]
fn client_errors_are_bad_requests() {
    assert_eq!(AsgiError::InvalidHttpVersion.status_code(), 400);
    assert_eq!(AsgiError::InvalidHttpVersion.response_text(), "Unsupported HTTP version");
    assert_eq!(AsgiError::InvalidUtf8InPath.status_code(), 400);
    assert_eq!(AsgiError::InvalidUtf8InPath.response_text(), "Invalid Utf8 in path");
}

#[test]
fn application_errors_are_internal_server_errors() {
    for e in [
        AsgiError::PyErr,
        AsgiError::ExpectedResponseStart,
        AsgiError::MissingResponse,
        AsgiError::ExpectedResponseBody,
        AsgiError::FailedToCreateResponse,
        AsgiError::InvalidHeader,
    ] {
        assert_eq!(e.status_code(), 500);
        assert_eq!(e.response_text(), "Internal Server Error");
    }
}
