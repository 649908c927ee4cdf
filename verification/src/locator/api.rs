//! The locator's HTTP API: answers and errors. Serving happens outside.

use crate::locator::config::Listener;
use crate::locator::locator::{LocatorError, LocatorErrorView};
use crate::support::text::{concat_str, decimal, str_eq, u64_to_decimal};
use vstd::prelude::*;

verus! {

/// Why the API could not be served.
#[derive(Debug)]
pub enum LocatorApiError {
    IoError(std::io::Error),
}

/// A successful lookup's answer.
#[derive(Debug, PartialEq, Eq)]
pub struct ApiResponse {
    pub cell: String,
}

impl ApiResponse {
    pub fn from(cell: String) -> (r: Self)
        ensures
            r.cell == cell,
    {
        ApiResponse { cell }
    }
}

/// A failed lookup's answer.
#[derive(Debug, PartialEq, Eq)]
pub struct ApiErrorResponse {
    pub error_message: String,
}

/// The query of a lookup.
#[derive(Debug, PartialEq, Eq)]
pub struct Params {
    pub org_id: String,
    pub locality: Option<String>,
}

/// Whether a query key names the organization: `org_id`, or `id` as
/// the HTTP client sends it.
pub open spec fn is_org_key(k: Seq<char>) -> bool {
    k == "org_id"@ || k == "id"@
}

/// The organization and locality a lookup query asks for: exactly one
/// organization key and at most one `locality` (other keys are ignored);
/// `None` when the query is not a lookup.
pub open spec fn query_params(q: Seq<(String, String)>) -> Option<(Seq<char>, Option<Seq<char>>)> {
    let o = q.filter(|p: (String, String)| is_org_key(p.0@));
    let l = q.filter(|p: (String, String)| p.0@ == "locality"@);
    if o.len() == 1 && l.len() <= 1 {
        Some((o[0].1@, if l.len() == 1 { Some(l[0].1@) } else { None }))
    } else {
        None
    }
}

impl Params {
    /// Reads a lookup's query pairs.
    pub fn from_query(query: Vec<(String, String)>) -> (r: Option<Params>)
        ensures
            match query_params(query@) {
                Some((o, l)) => r matches Some(p) && p.org_id@ == o && match p.locality {
                    Some(x) => l == Some(x@),
                    None => l is None,
                },
                None => r is None,
            },
    {
        let ghost qs = query@;
        let ghost po = |p: (String, String)| is_org_key(p.0@);
        let ghost pl = |p: (String, String)| p.0@ == "locality"@;
        let mut orgs: Vec<(String, String)> = Vec::new();
        let mut locs: Vec<(String, String)> = Vec::new();
        let mut rest = query;
        let total = rest.len();
        let mut i: usize = 0;
        proof {
            reveal(Seq::filter);
            assert(qs.take(0) =~= Seq::<(String, String)>::empty());
            assert(qs.skip(0) =~= qs);
        }
        while rest.len() > 0
            invariant
                total == qs.len(),
                i <= total,
                rest@ == qs.skip(i as int),
                po == (|p: (String, String)| is_org_key(p.0@)),
                pl == (|p: (String, String)| p.0@ == "locality"@),
                orgs@ == qs.take(i as int).filter(po),
                locs@ == qs.take(i as int).filter(pl),
            decreases rest@.len(),
        {
            let p = rest.remove(0);
            proof {
                broadcast use Seq::lemma_filter_push;

                reveal_strlit("org_id");
                reveal_strlit("id");
                reveal_strlit("locality");
                assert("org_id"@.len() == 6 && "id"@.len() == 2 && "locality"@.len() == 8);
                assert(qs.take(i + 1) =~= qs.take(i as int).push(qs[i as int]));
                assert(rest@ =~= qs.skip(i + 1));
            }
            let k = p.0.as_str();
            if str_eq(k, "org_id") || str_eq(k, "id") {
                orgs.push(p);
            } else if str_eq(k, "locality") {
                locs.push(p);
            }
            i = i + 1;
        }
        assert(qs.take(i as int) =~= qs);
        if orgs.len() != 1 || locs.len() > 1 {
            return None;
        }
        let (_, org_id) = orgs.remove(0);
        let locality = match locs.pop() {
            Some((_, l)) => Some(l),
            None => None,
        };
        Some(Params { org_id, locality })
    }
}

/// The status the API answers a lookup's result with.
pub open spec fn api_status(result: Result<Seq<char>, LocatorErrorView>) -> u16 {
    match result {
        Ok(_) => 200,
        Err(LocatorErrorView::NoCell) => 404,
        Err(LocatorErrorView::LocalityMismatch { .. }) => 404,
        Err(LocatorErrorView::NotReady) => 503,
        Err(LocatorErrorView::InternalError) => 500,
    }
}

/// A lookup's result by its views.
pub open spec fn result_view(result: Result<String, LocatorError>) -> Result<Seq<char>, LocatorErrorView> {
    match result {
        Ok(c) => Ok(c@),
        Err(e) => Err(e@),
    }
}

/// The address the API listens on: `host:port`.
pub fn listen_address(listener: &Listener) -> (a: String)
    ensures
        a@ == listener.host@ + ":"@ + decimal(listener.port as nat),
{
    let h = concat_str(listener.host.as_str(), ":");
    concat_str(h.as_str(), u64_to_decimal(listener.port as u64).as_str())
}

/// The answer to a lookup: the cell (200), or the error's status and
/// message.
pub fn lookup_response(result: Result<String, LocatorError>) -> (r: (u16, Result<ApiResponse, ApiErrorResponse>))
    ensures
        r.0 == api_status(result_view(result)),
        match result {
            Ok(c) => r.0 == 200 && r.1 == Ok::<ApiResponse, ApiErrorResponse>(ApiResponse { cell: c }),
            Err(e) => {
                &&& r.0 == match e {
                    LocatorError::NoCell => 404u16,
                    LocatorError::LocalityMismatch { .. } => 404u16,
                    LocatorError::NotReady => 503u16,
                    LocatorError::InternalError => 500u16,
                }
                &&& r.1 matches Err(m) && m.error_message@ == match e {
                    LocatorError::NoCell => "no cell found for organization"@,
                    LocatorError::LocalityMismatch { .. } => "requested locality does not match the cell's locality"@,
                    LocatorError::NotReady => "the locator is not ready yet"@,
                    LocatorError::InternalError => "internal error"@,
                }
            },
        },
{
    match result {
        Ok(c) => (200, Ok(ApiResponse::from(c))),
        Err(e) => {
            let status = e.status_code();
            let message = e.message();
            (status, Err(ApiErrorResponse { error_message: message }))
        },
    }
}

} // verus!
