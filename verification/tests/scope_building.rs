use parviocula::{build_scope, AsgiError, HttpScope, HttpVersion, PathAndQuery, RequestHead};

fn request(version: HttpVersion, path: Option<(&str, Option<&str>)>) -> RequestHead {
    RequestHead {
        version,
        method: "GET".to_string(),
        scheme: None,
        path_and_query: path.map(|(p, q)| PathAndQuery {
            path: p.to_string(),
            query: q.map(|q| q.to_string()),
        }),
        headers: vec![(b"host".to_vec(), b"example.org".to_vec())],
    }
}

fn scope_of(req: RequestHead) -> HttpScope {
    match build_scope(req) {
        Ok(s) => s,
        Err(e) => panic!("unexpected error {:?}", e),
    }
}

#[test]
fn scope_holds_fixed_fields() {
    let s = scope_of(request(HttpVersion::Http11, Some(("/echo", None))));
    assert_eq!(s.scope_type, "http");
    assert_eq!(s.asgi_version, "2.0");
    assert_eq!(s.spec_version, "2.0");
    assert_eq!(s.root_path, "");
    assert_eq!(s.method, "GET");
    assert_eq!(s.scheme, "http");
    assert_eq!(s.headers, vec![(b"host".to_vec(), b"example.org".to_vec())]);
}

#[test]
fn scope_names_http_versions() {
    assert_eq!(scope_of(request(HttpVersion::Http10, Some(("/", None)))).http_version, "1.0");
    assert_eq!(scope_of(request(HttpVersion::Http11, Some(("/", None)))).http_version, "1.1");
    assert_eq!(scope_of(request(HttpVersion::Http2, Some(("/", None)))).http_version, "2");
}

#[test]
fn scope_refuses_versions_without_asgi_name() {
    assert!(matches!(
        build_scope(request(HttpVersion::Http09, Some(("/", None)))),
        Err(AsgiError::InvalidHttpVersion)
    ));
    assert!(matches!(
        build_scope(request(HttpVersion::Http3, Some(("/", None)))),
        Err(AsgiError::InvalidHttpVersion)
    ));
}

#[test]
fn scope_decodes_path_and_keeps_raw_path() {
    let s = scope_of(request(HttpVersion::Http11, Some(("/foo%20bar%3f", Some("name=bob")))));
    assert_eq!(s.path, "/foo bar?");
    assert_eq!(s.raw_path, b"/foo%20bar%3f".to_vec());
    assert_eq!(s.query_string, b"name=bob".to_vec());
}

#[test]
fn scope_decodes_both_hex_cases_and_multibyte() {
    let s = scope_of(request(HttpVersion::Http11, Some(("/%e2%82%AC%41", None))));
    assert_eq!(s.path, "/\u{20ac}A");
}

#[test]
fn scope_keeps_percent_without_two_hex_digits() {
    let s = scope_of(request(HttpVersion::Http11, Some(("/100%", None))));
    assert_eq!(s.path, "/100%");
    let s = scope_of(request(HttpVersion::Http11, Some(("/a%4", None))));
    assert_eq!(s.path, "/a%4");
    let s = scope_of(request(HttpVersion::Http11, Some(("/%zz%2", None))));
    assert_eq!(s.path, "/%zz%2");
}

#[test]
fn scope_refuses_path_that_is_not_utf8() {
    assert!(matches!(
        build_scope(request(HttpVersion::Http11, Some(("/%ff", None)))),
        Err(AsgiError::InvalidUtf8InPath)
    ));
}

#[test]
fn scope_checks_version_before_path() {
    assert!(matches!(
        build_scope(request(HttpVersion::Http09, Some(("/%ff", None)))),
        Err(AsgiError::InvalidHttpVersion)
    ));
}

#[test]
fn scope_without_query_has_empty_query_string() {
    let s = scope_of(request(HttpVersion::Http11, Some(("/x", None))));
    assert!(s.query_string.is_empty());
}

#[test]
fn scope_without_path_has_empty_paths() {
    let s = scope_of(request(HttpVersion::Http11, None));
    assert_eq!(s.path, "");
    assert!(s.raw_path.is_empty());
    assert!(s.query_string.is_empty());
}

#[test]
fn scope_keeps_given_scheme() {
    let mut r = request(HttpVersion::Http2, Some(("/", None)));
    r.scheme = Some("https".to_string());
    assert_eq!(scope_of(r).scheme, "https");
}

#[test]
fn scope_plain_path_is_unchanged() {
    let s = scope_of(request(HttpVersion::Http11, Some(("/caf\u{e9}/x", None))));
    assert_eq!(s.path, "/caf\u{e9}/x");
    assert_eq!(s.raw_path, "/caf\u{e9}/x".as_bytes().to_vec());
}

#[test]
fn scope_errors_are_bad_requests() {
    let e = build_scope(request(HttpVersion::Http09, Some(("/", None)))).err().unwrap();
    assert_eq!(e.status_code(), 400);
    let e = build_scope(request(HttpVersion::Http11, Some(("/%c3%28", None)))).err().unwrap();
    assert_eq!(e.status_code(), 400);
}
