use vstd::prelude::*;

use crate::error::AsgiError;

verus! {

/// A header as the contracts see it: name bytes and value bytes.
pub type HeaderBytes = (Seq<u8>, Seq<u8>);

/// The bytes an HTTP header name may hold (RFC 9110 `tchar`): letters,
/// digits and ``!#$%&'*+-.^_`|~``.
pub open spec fn is_token_byte(b: u8) -> bool {
    ||| 48 <= b <= 57
    ||| 65 <= b <= 90
    ||| 97 <= b <= 122
    ||| b == 33 || b == 35 || b == 36 || b == 37 || b == 38 || b == 39
    ||| b == 42 || b == 43 || b == 45 || b == 46
    ||| b == 94 || b == 95 || b == 96 || b == 124 || b == 126
}

/// ASCII lower-casing of one byte.
pub open spec fn lower_byte(b: u8) -> u8 {
    if 65 <= b <= 90 {
        (b + 32) as u8
    } else {
        b
    }
}

/// The longest header name that is accepted.
pub open spec fn max_header_name_len() -> int {
    65535
}

/// A header name is valid when it is not empty, not too long and made of
/// token bytes only.
pub open spec fn valid_header_name(name: Seq<u8>) -> bool {
    &&& 1 <= name.len() <= max_header_name_len()
    &&& forall|i: int| 0 <= i < name.len() ==> is_token_byte(#[trigger] name[i])
}

/// A valid header name in its normal form: lower case.
pub open spec fn normalized_header_name(name: Seq<u8>) -> Seq<u8> {
    name.map_values(|b: u8| lower_byte(b))
}

/// The bytes a header value may hold: tab, and everything from space up but DEL.
pub open spec fn is_header_value_byte(b: u8) -> bool {
    (b >= 32 && b != 127) || b == 9
}

/// A header value is valid when every byte of it may stand in a value.
pub open spec fn valid_header_value(value: Seq<u8>) -> bool {
    forall|i: int| 0 <= i < value.len() ==> is_header_value_byte(#[trigger] value[i])
}

/// A header is valid when both its name and its value are.
pub open spec fn valid_header(h: HeaderBytes) -> bool {
    valid_header_name(h.0) && valid_header_value(h.1)
}

/// Every header of the list is valid.
pub open spec fn all_headers_valid(hs: Seq<HeaderBytes>) -> bool {
    forall|i: int| 0 <= i < hs.len() ==> valid_header(#[trigger] hs[i])
}

/// The header list as it goes out: same order, names in normal form,
/// values untouched.
pub open spec fn normalized_headers(hs: Seq<HeaderBytes>) -> Seq<HeaderBytes> {
    hs.map_values(|h: HeaderBytes| (normalized_header_name(h.0), h.1))
}

/// A status code that an HTTP response can carry: three digits.
pub open spec fn valid_status(code: u16) -> bool {
    100 <= code <= 999
}

/// Parses a header name with `http::HeaderName::from_bytes` and gives back
/// its bytes. Trusted: it succeeds exactly on valid names, and the name it
/// gives back is the lower-cased input.
#[verifier::external_body]
fn header_name_from_bytes(bytes: &[u8]) -> (res: Option<Vec<u8>>)
    ensures
        res is Some <==> valid_header_name(bytes@),
        res matches Some(name) ==> name@ == normalized_header_name(bytes@),
{
    match axum::http::HeaderName::from_bytes(bytes) {
        Ok(name) => Some(name.as_str().as_bytes().to_vec()),
        Err(_) => None,
    }
}

/// Checks a header value with `http::HeaderValue::from_bytes`. Trusted: it
/// succeeds exactly when every byte may stand in a header value.
#[verifier::external_body]
fn header_value_from_bytes(bytes: &[u8]) -> (ok: bool)
    ensures
        ok <==> valid_header_value(bytes@),
{
    axum::http::HeaderValue::from_bytes(bytes).is_ok()
}

/// Checks a status code with `http::StatusCode::from_u16`. Trusted: it
/// accepts exactly the codes from 100 to 999.
#[verifier::external_body]
fn status_code_from_u16(code: u16) -> (ok: bool)
    ensures
        ok <==> valid_status(code),
{
    axum::http::StatusCode::from_u16(code).is_ok()
}

/// Whether an HTTP response can carry `code` as its status.
pub fn is_valid_status(code: u16) -> (ok: bool)
    ensures
        ok <==> valid_status(code),
{
    status_code_from_u16(code)
}

/// Validates the headers of a response in order and brings their names into
/// normal form; the first invalid name or value fails the whole list.
pub fn normalize_headers(headers: &Vec<(Vec<u8>, Vec<u8>)>) -> (res: Result<
    Vec<(Vec<u8>, Vec<u8>)>,
    AsgiError,
>)
    ensures
        res is Ok <==> all_headers_valid(headers.deep_view()),
        res matches Ok(out) ==> out.deep_view() == normalized_headers(headers.deep_view()),
        res matches Err(e) ==> e == AsgiError::InvalidHeader,
        res matches Ok(out) ==> out@.len() == headers@.len(),
        res matches Ok(out) ==> forall|i: int|
            0 <= i < headers@.len() ==> (#[trigger] out@[i]).1@ == headers@[i].1@,
        res matches Ok(out) ==> forall|i: int|
            0 <= i < headers@.len() ==> (#[trigger] out@[i]).0@.len() == headers@[i].0@.len(),
        res matches Ok(out) ==> forall|i: int, j: int|
            0 <= i < headers@.len() && 0 <= j < headers@[i].0@.len() ==> #[trigger] out@[i].0@[j]
                == if 65 <= headers@[i].0@[j] <= 90 {
                (headers@[i].0@[j] + 32) as u8
            } else {
                headers@[i].0@[j]
            },
{
    let ghost src = headers.deep_view();
    let mut out: Vec<(Vec<u8>, Vec<u8>)> = Vec::new();
    let mut i: usize = 0;
    while i < headers.len()
        invariant
            src == headers.deep_view(),
            i <= headers.len(),
            out.deep_view() =~= normalized_headers(src).take(i as int),
            forall|j: int| 0 <= j < i ==> valid_header(#[trigger] src[j]),
        decreases headers.len() - i,
    {
        proof {
            assert(headers[i as int].0.deep_view() =~= headers[i as int].0@);
            assert(headers[i as int].1.deep_view() =~= headers[i as int].1@);
            assert(src[i as int] == (headers[i as int].0@, headers[i as int].1@));
        }
        let name = header_name_from_bytes(headers[i].0.as_slice());
        let name = match name {
            Some(n) => n,
            None => {
                assert(!valid_header(src[i as int]));
                return Err(AsgiError::InvalidHeader);
            },
        };
        if !header_value_from_bytes(headers[i].1.as_slice()) {
            assert(!valid_header(src[i as int]));
            return Err(AsgiError::InvalidHeader);
        }
        let value = vstd::slice::slice_to_vec(headers[i].1.as_slice());
        proof {
            assert(name.deep_view() =~= name@);
            assert(value.deep_view() =~= value@);
            assert((name.deep_view(), value.deep_view()) == normalized_headers(src)[i as int]);
        }
        let ghost before = out.deep_view();
        out.push((name, value));
        proof {
            assert(out.deep_view() =~= before.push(normalized_headers(src)[i as int]));
            assert(normalized_headers(src).take(i + 1) =~= normalized_headers(src).take(
                i as int,
            ).push(normalized_headers(src)[i as int]));
        }
        i = i + 1;
    }
    proof {
        assert(normalized_headers(src).take(i as int) =~= normalized_headers(src));
        law_normalized_headers_pointwise(src);
        assert(out.deep_view().len() == out@.len());
        assert forall|k: int| 0 <= k < headers@.len() implies (#[trigger] out@[k]).1@ == headers@[
            k].1@ && out@[k].0@ == normalized_header_name(headers@[k].0@) by {
            assert(out.deep_view()[k] == (out@[k].0.deep_view(), out@[k].1.deep_view()));
            assert(out@[k].0.deep_view() =~= out@[k].0@);
            assert(out@[k].1.deep_view() =~= out@[k].1@);
            assert(src[k] == (headers@[k].0.deep_view(), headers@[k].1.deep_view()));
            assert(headers@[k].0.deep_view() =~= headers@[k].0@);
            assert(headers@[k].1.deep_view() =~= headers@[k].1@);
        }
    }
    Ok(out)
}

/// Normalizing keeps every header, in order: entry `i` of the result is
/// the lower-cased name and the untouched value of entry `i` of the input.
pub proof fn law_normalized_headers_pointwise(hs: Seq<HeaderBytes>)
    ensures
        normalized_headers(hs).len() == hs.len(),
        forall|i: int|
            0 <= i < hs.len() ==> (#[trigger] normalized_headers(hs)[i]).1 == hs[i].1,
        forall|i: int|
            0 <= i < hs.len() ==> (#[trigger] normalized_headers(hs)[i]).0.len() == hs[i].0.len(),
        forall|i: int, j: int|
            0 <= i < hs.len() && 0 <= j < hs[i].0.len() ==> #[trigger] normalized_headers(hs)[i].0[j]
                == if 65 <= hs[i].0[j] <= 90 {
                (hs[i].0[j] + 32) as u8
            } else {
                hs[i].0[j]
            },
{
}

} // verus!
