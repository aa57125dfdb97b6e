use vstd::prelude::*;
use vstd::utf8::*;

verus! {

/// The value of an ASCII hexadecimal digit (either case), if `b` is one.
pub open spec fn hex_digit_value(b: u8) -> Option<u8> {
    if 48 <= b <= 57 {
        Some((b - 48) as u8)
    } else if 97 <= b <= 102 {
        Some((b - 87) as u8)
    } else if 65 <= b <= 70 {
        Some((b - 55) as u8)
    } else {
        None
    }
}

/// Whether `s` starts with `%` followed by two hexadecimal digits.
pub open spec fn starts_with_escape(s: Seq<u8>) -> bool {
    &&& s.len() >= 3
    &&& s[0] == 37
    &&& hex_digit_value(s[1]) is Some
    &&& hex_digit_value(s[2]) is Some
}

/// The byte that an escape `%XY` at the start of `s` stands for.
pub open spec fn escaped_byte(s: Seq<u8>) -> u8 {
    (hex_digit_value(s[1])->0 * 16 + hex_digit_value(s[2])->0) as u8
}

/// Percent-decoding (the URL standard's): every `%` followed by two
/// hexadecimal digits becomes the byte they spell; every other byte,
/// a `%` without two digits after it included, is kept as it is.
pub open spec fn percent_decode(s: Seq<u8>) -> Seq<u8>
    decreases s.len(),
{
    if s.len() == 0 {
        seq![]
    } else if starts_with_escape(s) {
        seq![escaped_byte(s)] + percent_decode(s.skip(3))
    } else {
        seq![s[0]] + percent_decode(s.skip(1))
    }
}

/// Percent-decodes `raw` and reads the result as UTF-8, through
/// `percent_encoding::percent_decode` and `PercentDecode::decode_utf8`.
/// Trusted: the result is `Some` exactly when the decoded bytes are
/// well-formed UTF-8, and then it holds the characters they encode.
#[verifier::external_body]
pub(crate) fn percent_decode_utf8(raw: &[u8]) -> (res: Option<String>)
    ensures
        res is Some <==> valid_utf8(percent_decode(raw@)),
        res matches Some(s) ==> s@ == decode_utf8(percent_decode(raw@)),
{
    match percent_encoding::percent_decode(raw).decode_utf8() {
        Ok(text) => Some(text.into_owned()),
        Err(_) => None,
    }
}

/// A sequence without `%` decodes to itself.
pub proof fn lemma_decode_without_percent(s: Seq<u8>)
    requires
        forall|i: int| 0 <= i < s.len() ==> s[i] != 37,
    ensures
        percent_decode(s) == s,
    decreases s.len(),
{
    if s.len() > 0 {
        lemma_decode_without_percent(s.skip(1));
        assert(seq![s[0]] + s.skip(1) =~= s);
    }
}

} // verus!
