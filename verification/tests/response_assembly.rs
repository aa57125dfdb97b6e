use parviocula::headers::{is_valid_status, normalize_headers};
use parviocula::{AppMessage, AsgiError, Field, HttpResponse, ResponseAssembler};

fn empty() -> AppMessage {
    AppMessage {
        kind: Field::Absent,
        status: Field::Absent,
        headers: Field::Absent,
        body: Field::Absent,
        more_body: Field::Absent,
    }
}

fn start(status: u16, headers: Option<Vec<(&[u8], &[u8])>>) -> AppMessage {
    AppMessage {
        kind: Field::Present("http.response.start".to_string()),
        status: Field::Present(status),
        headers: match headers {
            Some(h) => Field::Present(h.into_iter().map(|(n, v)| (n.to_vec(), v.to_vec())).collect()),
            None => Field::Absent,
        },
        ..empty()
    }
}

fn chunk(bytes: Option<&[u8]>, more: Option<bool>) -> AppMessage {
    AppMessage {
        kind: Field::Present("http.response.body".to_string()),
        body: match bytes {
            Some(b) => Field::Present(b.to_vec()),
            None => Field::Absent,
        },
        more_body: match more {
            Some(m) => Field::Present(m),
            None => Field::Absent,
        },
        ..empty()
    }
}

fn feed(events: Vec<Option<AppMessage>>) -> Result<HttpResponse, AsgiError> {
    let mut a = ResponseAssembler::new();
    for e in events {
        assert!(!a.is_done());
        assert!(!a.breaks_builder(&e));
        if let Some(out) = a.on_message(e) {
            assert!(a.is_done());
            return out;
        }
    }
    panic!("response was not decided");
}

fn error_of(events: Vec<Option<AppMessage>>) -> AsgiError {
    match feed(events) {
        Ok(_) => panic!("expected an error"),
        Err(e) => e,
    }
}

#[test]
fn response_collects_status_headers_and_body_in_order() {
    let r = feed(vec![
        Some(start(200, Some(vec![(b"Content-Type", b"text/plain"), (b"X-Two", b"a"), (b"x-two", b"b")]))),
        Some(chunk(Some(b"hello"), Some(true))),
        Some(chunk(Some(b" "), Some(true))),
        Some(chunk(Some(b"world"), None)),
    ])
    .unwrap();
    assert_eq!(r.status, 200);
    assert_eq!(
        r.headers,
        vec![
            (b"content-type".to_vec(), b"text/plain".to_vec()),
            (b"x-two".to_vec(), b"a".to_vec()),
            (b"x-two".to_vec(), b"b".to_vec()),
        ]
    );
    assert_eq!(r.body, b"hello world".to_vec());
}

#[test]
fn response_ends_at_more_body_false() {
    let mut a = ResponseAssembler::new();
    assert!(a.on_message(Some(start(404, None))).is_none());
    assert!(!a.is_done());
    let out = a.on_message(Some(chunk(Some(b"nope"), Some(false)))).unwrap().unwrap();
    assert!(a.is_done());
    assert_eq!(out.status, 404);
    assert!(out.headers.is_empty());
    assert_eq!(out.body, b"nope".to_vec());
}

#[test]
fn response_body_may_be_absent() {
    let r = feed(vec![Some(start(204, None)), Some(chunk(None, None))]).unwrap();
    assert_eq!(r.status, 204);
    assert!(r.body.is_empty());
}

#[test]
fn response_ends_when_application_stops_sending() {
    let r = feed(vec![Some(start(200, None)), Some(chunk(Some(b"part"), Some(true))), None]).unwrap();
    assert_eq!(r.body, b"part".to_vec());
    let r = feed(vec![Some(start(200, None)), None]).unwrap();
    assert!(r.body.is_empty());
}

#[test]
fn response_missing_when_nothing_is_sent() {
    assert_eq!(error_of(vec![None]), AsgiError::MissingResponse);
}

#[test]
fn response_must_open_with_start() {
    assert_eq!(error_of(vec![Some(chunk(Some(b"x"), None))]), AsgiError::ExpectedResponseStart);
    assert_eq!(error_of(vec![Some(empty())]), AsgiError::ExpectedResponseStart);
    let bad_type = AppMessage { kind: Field::Invalid, ..start(200, None) };
    assert_eq!(error_of(vec![Some(bad_type)]), AsgiError::PyErr);
}

#[test]
fn response_start_needs_status() {
    let m = AppMessage { status: Field::Absent, ..start(200, None) };
    assert_eq!(error_of(vec![Some(m)]), AsgiError::PyErr);
    let m = AppMessage { status: Field::Invalid, ..start(200, None) };
    assert_eq!(error_of(vec![Some(m)]), AsgiError::PyErr);
    let m = AppMessage { headers: Field::Invalid, ..start(200, None) };
    assert_eq!(error_of(vec![Some(m)]), AsgiError::PyErr);
}

#[test]
fn response_refuses_invalid_headers() {
    assert_eq!(
        error_of(vec![Some(start(200, Some(vec![(b"bad header", b"x")])))]),
        AsgiError::InvalidHeader
    );
    assert_eq!(
        error_of(vec![Some(start(200, Some(vec![(b"ok", b"x"), (b"x-a", b"line\nbreak")])))]),
        AsgiError::InvalidHeader
    );
    assert_eq!(error_of(vec![Some(start(200, Some(vec![(b"", b"x")])))]), AsgiError::InvalidHeader);
}

#[test]
fn response_body_messages_must_be_body() {
    assert_eq!(
        error_of(vec![Some(start(200, None)), Some(start(200, None))]),
        AsgiError::ExpectedResponseBody
    );
    assert_eq!(error_of(vec![Some(start(200, None)), Some(empty())]), AsgiError::ExpectedResponseBody);
    let m = AppMessage { more_body: Field::Invalid, ..chunk(Some(b"x"), None) };
    assert_eq!(error_of(vec![Some(start(200, None)), Some(m)]), AsgiError::PyErr);
    let m = AppMessage { body: Field::Invalid, ..chunk(None, Some(true)) };
    assert_eq!(error_of(vec![Some(start(200, None)), Some(m)]), AsgiError::PyErr);
}

#[test]
fn response_with_unusable_status_fails_at_the_end() {
    assert_eq!(
        error_of(vec![Some(start(42, None)), Some(chunk(Some(b"x"), Some(true))), Some(chunk(None, None))]),
        AsgiError::FailedToCreateResponse
    );
    assert_eq!(
        error_of(vec![Some(start(1000, None)), Some(empty())]),
        AsgiError::ExpectedResponseBody
    );
}

#[test]
fn unusable_status_with_headers_breaks_builder() {
    let a = ResponseAssembler::new();
    assert!(a.breaks_builder(&Some(start(42, Some(vec![])))));
    assert!(a.breaks_builder(&Some(start(1000, Some(vec![(b"a", b"b")])))));
    assert!(!a.breaks_builder(&Some(start(42, None))));
    assert!(!a.breaks_builder(&Some(start(200, Some(vec![])))));
    assert!(!a.breaks_builder(&None));
}

#[test]
fn status_range_is_three_digits() {
    assert!(!is_valid_status(99));
    assert!(is_valid_status(100));
    assert!(is_valid_status(999));
    assert!(!is_valid_status(1000));
}

#[test]
fn header_names_are_lower_cased_and_values_kept() {
    let out = normalize_headers(&vec![(b"X-Custom-HEADER".to_vec(), b"Mixed Case\t\xfa".to_vec())]).unwrap();
    assert_eq!(out, vec![(b"x-custom-header".to_vec(), b"Mixed Case\t\xfa".to_vec())]);
    assert!(normalize_headers(&vec![(b"x".to_vec(), b"\x7f".to_vec())]).is_err());
    assert!(normalize_headers(&vec![(b"caf\xc3\xa9".to_vec(), b"x".to_vec())]).is_err());
}

#[test]
fn failed_response_is_server_error() {
    let e = error_of(vec![Some(chunk(None, None))]);
    assert_eq!(e.status_code(), 500);
}
