use vstd::prelude::*;

verus! {

/// Whether a byte may stand in an HTTP header value: visible ASCII, the
/// space, any byte from 128 up, or a horizontal tab; not DEL nor other controls.
pub open spec fn header_byte_ok(b: u8) -> bool {
    (b >= 32 && b != 127) || b == 9
}

/// Whether a whole byte string is a valid HTTP header value.
pub open spec fn header_value_ok(v: Seq<u8>) -> bool {
    forall|i: int| 0 <= i < v.len() ==> header_byte_ok(#[trigger] v[i])
}

/// Checks a header value byte by byte, as `http::HeaderValue::from_bytes` does.
pub fn valid_header_value(v: &[u8]) -> (r: bool)
    ensures
        r == header_value_ok(v@),
{
    let mut i: usize = 0;
    while i < v.len()
        invariant
            0 <= i <= v@.len(),
            forall|j: int| 0 <= j < i ==> header_byte_ok(#[trigger] v@[j]),
        decreases v@.len() - i,
    {
        let b = v[i];
        if !((b >= 32 && b != 127) || b == 9) {
            return false;
        }
        i = i + 1;
    }
    true
}

/// Copies a byte string into a vector of its own.
pub fn copy_bytes(s: &[u8]) -> (r: Vec<u8>)
    ensures
        r@ == s@,
{
    let mut r: Vec<u8> = Vec::new();
    let mut i: usize = 0;
    while i < s.len()
        invariant
            0 <= i <= s@.len(),
            r@ == s@.subrange(0, i as int),
        decreases s@.len() - i,
    {
        r.push(s[i]);
        i = i + 1;
        assert(r@ == s@.subrange(0, i as int));
    }
    assert(s@.subrange(0, s@.len() as int) == s@);
    r
}

/// Whether `http` accepts the text as the path-and-query part of a URI.
pub uninterp spec fn path_query_valid(s: Seq<char>) -> bool;

/// Whether `http` accepts the text as a whole URI.
pub uninterp spec fn uri_valid(s: Seq<char>) -> bool;

/// Relies on `http::uri::PathAndQuery::try_from(&str)`: it accepts or rejects
/// the text by the text alone; on rejection the error's message is handed back.
#[verifier::external_body]
pub(crate) fn parse_path_query(s: &str) -> (r: Result<(), String>)
    ensures
        r is Ok <==> path_query_valid(s@),
{
    match http::uri::PathAndQuery::try_from(s) {
        Ok(_) => Ok(()),
        Err(e) => Err(e.to_string()),
    }
}

/// Relies on `http::Uri::try_from(&str)`: it accepts or rejects the text by
/// the text alone; on rejection the error's message is handed back.
#[verifier::external_body]
pub(crate) fn parse_uri(s: &str) -> (r: Result<(), String>)
    ensures
        r is Ok <==> uri_valid(s@),
{
    match http::Uri::try_from(s) {
        Ok(_) => Ok(()),
        Err(e) => Err(e.to_string()),
    }
}

} // verus!
