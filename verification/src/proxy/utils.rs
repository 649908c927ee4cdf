//! Error answers of the proxy.

use vstd::prelude::*;

verus! {

/// The reason phrase `http` gives a status code, when it knows one.
pub uninterp spec fn status_reason(code: u16) -> Option<Seq<char>>;

/// The canonical reason phrase of a status code, from `http::StatusCode`.
#[verifier::external_body]
fn canonical_reason(code: u16) -> (r: Option<String>)
    ensures
        match r {
            Some(s) => status_reason(code) == Some(s@),
            None => status_reason(code) is None,
        },
{
    match http::StatusCode::from_u16(code) {
        Ok(s) => s.canonical_reason().map(|p| p.to_owned()),
        Err(_) => None,
    }
}

/// The body of an error answer: the status's reason phrase, or a generic
/// text when it has none.
pub open spec fn error_body(code: u16) -> Seq<char> {
    match status_reason(code) {
        Some(r) => r,
        None => "an error occurred"@,
    }
}

/// An error answer: the status and its body.
pub fn make_error_response(status_code: u16) -> (r: (u16, String))
    ensures
        r.0 == status_code,
        r.1@ == error_body(status_code),
{
    match canonical_reason(status_code) {
        Some(m) => (status_code, m),
        None => (status_code, "an error occurred".to_owned()),
    }
}

} // verus!
