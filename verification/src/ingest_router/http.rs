//! The parts of sending a request to an upstream that decide something:
//! the target URL, the name the upstream is reported under, and the error
//! each failure is reported as. The sending itself happens outside.

use crate::ingest_router::errors::IngestRouterError;
use crate::support::forwarding::{forward_headers, forwarded, HttpVersion};
use crate::support::text::{chars_of, find_char, lemma_split_once, split_once, sub_string};
use vstd::prelude::*;

verus! {

/// The URL `url::Url` gives when the base URL's path is replaced (its
/// query kept), or `None` when the base does not parse.
pub uninterp spec fn url_with_path(base: Seq<char>, path: Seq<char>) -> Option<Seq<char>>;

/// The URL `url::Url` gives when the base URL's path and query are both
/// replaced, or `None` when the base does not parse.
pub uninterp spec fn url_with_path_and_query(base: Seq<char>, path: Seq<char>, query: Seq<char>) -> Option<Seq<char>>;

/// Parses `base` with `url::Url`, sets its path, and returns the URL's
/// text.
#[verifier::external_body]
fn set_url_path(base: &str, path: &str) -> (r: Option<String>)
    ensures
        match r {
            Some(u) => url_with_path(base@, path@) == Some(u@),
            None => url_with_path(base@, path@) is None,
        },
{
    match url::Url::parse(base) {
        Ok(mut u) => {
            u.set_path(path);
            Some(u.to_string())
        },
        Err(_) => None,
    }
}

/// Parses `base` with `url::Url`, sets its path and its query, and
/// returns the URL's text.
#[verifier::external_body]
fn set_url_path_and_query(base: &str, path: &str, query: &str) -> (r: Option<String>)
    ensures
        match r {
            Some(u) => url_with_path_and_query(base@, path@, query@) == Some(u@),
            None => url_with_path_and_query(base@, path@, query@) is None,
        },
{
    match url::Url::parse(base) {
        Ok(mut u) => {
            u.set_path(path);
            u.set_query(Some(query));
            Some(u.to_string())
        },
        Err(_) => None,
    }
}

/// How a request to an upstream failed.
#[derive(Debug, PartialEq, Eq)]
pub enum SendFailure {
    /// No answer within the timeout.
    TimedOut,
    /// The client failed; the text says how.
    Client(String),
    /// The answer's body could not be read; the text says why.
    Body(String),
}

/// The request path and query split at the first `?`.
pub fn split_path_and_query(path_and_query: &str) -> (r: (String, Option<String>))
    ensures
        match split_once(path_and_query@, '?') {
            Some((p, q)) => r.0@ == p && (r.1 matches Some(x) && x@ == q),
            None => r.0@ == path_and_query@ && r.1 is None,
        },
{
    let v = chars_of(path_and_query);
    let n = v.len();
    match find_char(&v, '?') {
        Some(i) => {
            proof {
                lemma_split_once(v@, '?', i as int);
            }
            (sub_string(&v, 0, i), Some(sub_string(&v, i + 1, n)))
        },
        None => {
            proof {
                lemma_split_once(v@, '?', n as int);
            }
            (path_and_query.to_owned(), None)
        },
    }
}

/// The URL to send a request to: the upstream's URL with the request's
/// path, and with the request's query when it has one (else the
/// upstream's own query stays). A request without a path is an internal
/// error, as is an upstream URL that does not parse.
pub fn upstream_uri(upstream_url: &str, path_and_query: Option<&str>) -> (r: Result<String, IngestRouterError>)
    ensures
        match path_and_query {
            None => (r matches Err(IngestRouterError::InternalError(m)) && m@ == "Request URI missing path and query"@),
            Some(pq) => match split_once(pq@, '?') {
                Some((p, q)) => match url_with_path_and_query(upstream_url@, p, q) {
                    Some(u) => (r matches Ok(x) && x@ == u),
                    None => r matches Err(IngestRouterError::InternalError(_)),
                },
                None => match url_with_path(upstream_url@, pq@) {
                    Some(u) => (r matches Ok(x) && x@ == u),
                    None => r matches Err(IngestRouterError::InternalError(_)),
                },
            },
        },
{
    let pq = match path_and_query {
        Some(x) => x,
        None => return Err(IngestRouterError::InternalError("Request URI missing path and query".to_owned())),
    };
    let (path, query) = split_path_and_query(pq);
    let built = match &query {
        Some(q) => set_url_path_and_query(upstream_url, path.as_str(), q.as_str()),
        None => set_url_path(upstream_url, path.as_str()),
    };
    match built {
        Some(u) => Ok(u),
        None => Err(IngestRouterError::InternalError("Failed to build request".to_owned())),
    }
}

/// What is sent to an upstream: the URL (as `upstream_uri` builds it)
/// and the request's headers as this hop passes them on.
pub fn upstream_request(
    upstream_url: &str,
    path_and_query: Option<&str>,
    headers: Vec<(String, String)>,
    version: HttpVersion,
) -> (r: Result<(String, Vec<(String, String)>), IngestRouterError>)
    ensures
        match r {
            Ok((u, h)) => {
                &&& upstream_uri_result(upstream_url@, path_and_query) == Some(u@)
                &&& h@.drop_last() == forwarded(headers@, version).0
                &&& h@.len() == forwarded(headers@, version).0.len() + 1
                &&& h@.last().0@ == "via"@
                &&& h@.last().1@ == forwarded(headers@, version).1
            },
            Err(e) => upstream_uri_result(upstream_url@, path_and_query) is None
                && e is InternalError,
        },
{
    match upstream_uri(upstream_url, path_and_query) {
        Ok(u) => Ok((u, forward_headers(headers, version))),
        Err(e) => Err(e),
    }
}

/// The URL `upstream_uri` builds, `None` when it fails.
pub open spec fn upstream_uri_result(upstream_url: Seq<char>, path_and_query: Option<&str>) -> Option<Seq<char>> {
    match path_and_query {
        None => None,
        Some(pq) => match split_once(pq@, '?') {
            Some((p, q)) => url_with_path_and_query(upstream_url, p, q),
            None => url_with_path(upstream_url, pq@),
        },
    }
}

/// The name an upstream is reported under: its host, or its whole URL.
pub fn upstream_identifier<'a>(host: Option<&'a str>, url: &'a str) -> (r: &'a str)
    ensures
        r == match host {
            Some(h) => h,
            None => url,
        },
{
    match host {
        Some(h) => h,
        None => url,
    }
}

/// The error a failed request is reported as.
pub fn failure_error(identifier: &str, failure: SendFailure) -> (e: IngestRouterError)
    ensures
        match failure {
            SendFailure::TimedOut => (e matches IngestRouterError::UpstreamTimeout(u) && u@ == identifier@),
            SendFailure::Client(m) => (e matches IngestRouterError::UpstreamRequestFailed(u, x) && u@ == identifier@ && x == m),
            SendFailure::Body(m) => (e matches IngestRouterError::ResponseBodyError(x) && x == m),
        },
{
    match failure {
        SendFailure::TimedOut => IngestRouterError::UpstreamTimeout(identifier.to_owned()),
        SendFailure::Client(m) => IngestRouterError::UpstreamRequestFailed(identifier.to_owned(), m),
        SendFailure::Body(m) => IngestRouterError::ResponseBodyError(m),
    }
}

} // verus!
