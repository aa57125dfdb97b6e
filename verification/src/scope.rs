use vstd::prelude::*;
use vstd::utf8::*;

use crate::error::{is_client_error, AsgiError};
use crate::percent::{lemma_decode_without_percent, percent_decode, percent_decode_utf8};

verus! {

broadcast use vstd::string::to_string_from_display_ensures_for_str;

/// The HTTP version a request came in with.
#[derive(Debug, Clone, Copy, PartialEq, Eq, Structural)]
pub enum HttpVersion {
    Http09,
    Http10,
    Http11,
    Http2,
    Http3,
}

/// The path of the request target and its query, without the `?`.
pub struct PathAndQuery {
    pub path: String,
    pub query: Option<String>,
}

/// What the bridge reads of an incoming request before the body.
pub struct RequestHead {
    pub version: HttpVersion,
    pub method: String,
    /// The scheme of the request target, where the target names one.
    pub scheme: Option<String>,
    /// The path and query of the request target, where it has them.
    pub path_and_query: Option<PathAndQuery>,
    /// The request headers in order: lower-case name bytes and value bytes.
    pub headers: Vec<(Vec<u8>, Vec<u8>)>,
}

/// The ASGI `http` connection scope handed to the application.
pub struct HttpScope {
    /// `type`: always `http`.
    pub scope_type: String,
    /// `asgi.version`.
    pub asgi_version: String,
    /// `asgi.spec_version`.
    pub spec_version: String,
    pub http_version: String,
    pub method: String,
    pub scheme: String,
    /// The percent-decoded path.
    pub path: String,
    /// The path exactly as it came in.
    pub raw_path: Vec<u8>,
    pub query_string: Vec<u8>,
    pub root_path: String,
    pub headers: Vec<(Vec<u8>, Vec<u8>)>,
}

/// The name ASGI gives to an HTTP version, where it has one.
pub open spec fn asgi_http_version(v: HttpVersion) -> Option<Seq<char>> {
    match v {
        HttpVersion::Http10 => Some("1.0"@),
        HttpVersion::Http11 => Some("1.1"@),
        HttpVersion::Http2 => Some("2"@),
        _ => None,
    }
}

/// The raw path bytes of a request: empty when the target has no path.
pub open spec fn raw_path_of(r: RequestHead) -> Seq<u8> {
    match r.path_and_query {
        Some(pq) => encode_utf8(pq.path@),
        None => seq![],
    }
}

/// The query string bytes of a request: empty when it has none.
pub open spec fn query_string_of(r: RequestHead) -> Seq<u8> {
    match r.path_and_query {
        Some(pq) => match pq.query {
            Some(q) => encode_utf8(q@),
            None => seq![],
        },
        None => seq![],
    }
}

/// The decoded path of a request: empty when the target has no path.
pub open spec fn decoded_path_of(r: RequestHead) -> Seq<char> {
    match r.path_and_query {
        Some(_) => decode_utf8(percent_decode(raw_path_of(r))),
        None => seq![],
    }
}

/// The scheme of a request, `http` when the target names none.
pub open spec fn scheme_of(r: RequestHead) -> Seq<char> {
    match r.scheme {
        Some(s) => s@,
        None => "http"@,
    }
}

/// Why a request cannot be put into a scope, if it cannot: the version is
/// checked first, the path second.
pub open spec fn scope_error(r: RequestHead) -> Option<AsgiError> {
    if asgi_http_version(r.version) is None {
        Some(AsgiError::InvalidHttpVersion)
    } else if r.path_and_query is Some && !valid_utf8(percent_decode(raw_path_of(r))) {
        Some(AsgiError::InvalidUtf8InPath)
    } else {
        None
    }
}

/// `s` is the scope of request `r`.
pub open spec fn scope_of_request(s: HttpScope, r: RequestHead) -> bool {
    &&& s.scope_type@ == "http"@
    &&& s.asgi_version@ == "2.0"@
    &&& s.spec_version@ == "2.0"@
    &&& asgi_http_version(r.version) == Some(s.http_version@)
    &&& s.method@ == r.method@
    &&& s.scheme@ == scheme_of(r)
    &&& s.path@ == decoded_path_of(r)
    &&& s.raw_path@ == raw_path_of(r)
    &&& s.query_string@ == query_string_of(r)
    &&& s.root_path@ == Seq::<char>::empty()
    &&& s.headers.deep_view() == r.headers.deep_view()
}

/// Turns a request head into the ASGI scope of the connection.
pub fn build_scope(req: RequestHead) -> (res: Result<HttpScope, AsgiError>)
    ensures
        res is Ok <==> scope_error(req) is None,
        res matches Err(e) ==> scope_error(req) == Some(e),
        res matches Ok(s) ==> scope_of_request(s, req),
        res matches Ok(s) ==> s.headers.deep_view() == req.headers.deep_view(),
        res matches Ok(s) ==> s.method@ == req.method@,
        res matches Ok(s) ==> s.scope_type@ == "http"@ && s.root_path@ == Seq::<char>::empty(),
        res matches Ok(s) ==> s.asgi_version@ == "2.0"@ && s.spec_version@ == "2.0"@,
        res matches Ok(s) ==> (req.scheme matches Some(x) ==> s.scheme@ == x@),
        res matches Ok(s) ==> (req.scheme is None ==> s.scheme@ == "http"@),
        res matches Ok(s) ==> (req.version == HttpVersion::Http10 ==> s.http_version@ == "1.0"@),
        res matches Ok(s) ==> (req.version == HttpVersion::Http11 ==> s.http_version@ == "1.1"@),
        res matches Ok(s) ==> (req.version == HttpVersion::Http2 ==> s.http_version@ == "2"@),
        (req.version == HttpVersion::Http09 || req.version == HttpVersion::Http3) ==> res
            == Err::<HttpScope, AsgiError>(AsgiError::InvalidHttpVersion),
        res matches Ok(s) ==> (req.path_and_query matches Some(pq) ==> s.raw_path@ == encode_utf8(
            pq.path@,
        )),
        res matches Ok(s) ==> (req.path_and_query matches Some(pq) ==> (pq.query matches Some(q)
            ==> s.query_string@ == encode_utf8(q@))),
        res matches Ok(s) ==> (req.path_and_query matches Some(pq) ==> (pq.query is None
            ==> s.query_string@.len() == 0)),
        res matches Ok(s) ==> (req.path_and_query is None ==> s.path@.len() == 0
            && s.raw_path@.len() == 0 && s.query_string@.len() == 0),
        res matches Ok(s) ==> (req.path_and_query matches Some(pq) ==> s.path@ == decode_utf8(
            percent_decode(encode_utf8(pq.path@)),
        )),
{
    let ghost r = req;
    let http_version = match req.version {
        HttpVersion::Http10 => "1.0".to_string(),
        HttpVersion::Http11 => "1.1".to_string(),
        HttpVersion::Http2 => "2".to_string(),
        _ => {
            return Err(AsgiError::InvalidHttpVersion);
        },
    };
    let scheme = match req.scheme {
        Some(s) => s,
        None => "http".to_string(),
    };
    let (path, raw_path, query_string) = match req.path_and_query {
        Some(pq) => {
            let raw = pq.path.as_str().as_bytes();
            let decoded = match percent_decode_utf8(raw) {
                Some(p) => p,
                None => {
                    return Err(AsgiError::InvalidUtf8InPath);
                },
            };
            let raw_path = vstd::slice::slice_to_vec(raw);
            let query_string = match pq.query {
                Some(q) => vstd::slice::slice_to_vec(q.as_str().as_bytes()),
                None => Vec::new(),
            };
            (decoded, raw_path, query_string)
        },
        None => (String::new(), Vec::new(), Vec::new()),
    };
    let scope = HttpScope {
        scope_type: "http".to_string(),
        asgi_version: "2.0".to_string(),
        spec_version: "2.0".to_string(),
        http_version,
        method: req.method,
        scheme,
        path,
        raw_path,
        query_string,
        root_path: String::new(),
        headers: req.headers,
    };
    Ok(scope)
}

/// A request that cannot be put into a scope is the client's fault: it is
/// answered with 400.
pub proof fn lemma_scope_errors_are_client_errors(r: RequestHead)
    ensures
        scope_error(r) matches Some(e) ==> is_client_error(e),
{
}

/// A path without `%` reaches the application as it came in.
pub proof fn lemma_plain_path_unchanged(r: RequestHead, s: HttpScope)
    requires
        scope_of_request(s, r),
        r.path_and_query is Some,
        forall|i: int| 0 <= i < raw_path_of(r).len() ==> raw_path_of(r)[i] != 37,
    ensures
        s.path@ == r.path_and_query->0.path@,
{
    broadcast use vstd::utf8::encode_utf8_decode_utf8;

    lemma_decode_without_percent(raw_path_of(r));
}

/// The query string reaches the application exactly as it came in, still
/// percent-encoded: the UTF-8 bytes of the query.
pub proof fn law_query_string_verbatim(r: RequestHead, s: HttpScope)
    requires
        scope_of_request(s, r),
        r.path_and_query is Some,
        r.path_and_query->0.query is Some,
    ensures
        s.query_string@ == encode_utf8(r.path_and_query->0.query->0@),
{
}

/// The raw path reaches the application exactly as it came in.
pub proof fn law_raw_path_verbatim(r: RequestHead, s: HttpScope)
    requires
        scope_of_request(s, r),
        r.path_and_query is Some,
    ensures
        s.raw_path@ == encode_utf8(r.path_and_query->0.path@),
{
}

/// Every request header reaches the application: same count, same order,
/// same bytes, repeated names included.
pub proof fn law_scope_headers_verbatim(r: RequestHead, s: HttpScope)
    requires
        scope_of_request(s, r),
    ensures
        s.headers.deep_view().len() == r.headers.deep_view().len(),
        forall|i: int|
            0 <= i < r.headers.deep_view().len() ==> #[trigger] s.headers.deep_view()[i]
                == r.headers.deep_view()[i],
{
}

} // verus!
