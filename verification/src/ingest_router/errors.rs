//! Errors of the ingest router and the HTTP status each one is answered with.

use crate::support::text::concat_str;
use vstd::prelude::*;

verus! {

#[verifier::external_type_specification]
#[verifier::external_body]
pub struct ExIoError(std::io::Error);

/// Errors that can occur while routing a request.
#[derive(Debug)]
pub enum IngestRouterError {
    RequestBodyError(String),
    ResponseBodyError(String),
    UpstreamRequestFailed(String, String),
    UpstreamTimeout(String),
    ResponseSerializationError(String),
    ResponseBuildError(String),
    InternalError(String),
    ServiceUnavailable(String),
    Io(std::io::Error),
}

/// The text of an I/O error (its `Display`). Nothing is claimed of it: it
/// comes from the operating system's messages.
#[verifier::external_body]
fn io_error_text(e: &std::io::Error) -> (s: String) {
    e.to_string()
}

impl IngestRouterError {
    /// The error's message.
    pub fn message(&self) -> (m: String)
        ensures
            match self {
                IngestRouterError::RequestBodyError(x) => m@ == "Failed to read request body: "@ + x@,
                IngestRouterError::ResponseBodyError(x) => m@ == "Failed to read response body: "@ + x@,
                IngestRouterError::UpstreamRequestFailed(u, x) => m@ == "Upstream request failed for "@ + u@ + ": "@ + x@,
                IngestRouterError::UpstreamTimeout(u) => m@ == "Upstream timeout for "@ + u@,
                IngestRouterError::ResponseSerializationError(x) => m@ == "Failed to serialize response: "@ + x@,
                IngestRouterError::ResponseBuildError(x) => m@ == "Failed to build response: "@ + x@,
                IngestRouterError::InternalError(x) => m@ == "Internal error: "@ + x@,
                IngestRouterError::ServiceUnavailable(x) => m@ == "Service unavailable: "@ + x@,
                IngestRouterError::Io(_) => exists|t: Seq<char>| m@ == "IO error: "@ + t,
            },
    {
        match self {
            IngestRouterError::RequestBodyError(x) => concat_str("Failed to read request body: ", x.as_str()),
            IngestRouterError::ResponseBodyError(x) => concat_str("Failed to read response body: ", x.as_str()),
            IngestRouterError::UpstreamRequestFailed(u, x) => {
                let a = concat_str("Upstream request failed for ", u.as_str());
                let b = concat_str(a.as_str(), ": ");
                concat_str(b.as_str(), x.as_str())
            },
            IngestRouterError::UpstreamTimeout(u) => concat_str("Upstream timeout for ", u.as_str()),
            IngestRouterError::ResponseSerializationError(x) => concat_str("Failed to serialize response: ", x.as_str()),
            IngestRouterError::ResponseBuildError(x) => concat_str("Failed to build response: ", x.as_str()),
            IngestRouterError::InternalError(x) => concat_str("Internal error: ", x.as_str()),
            IngestRouterError::ServiceUnavailable(x) => concat_str("Service unavailable: ", x.as_str()),
            IngestRouterError::Io(e) => {
                let t = io_error_text(e);
                let m = concat_str("IO error: ", t.as_str());
                assert(m@ == "IO error: "@ + t@);
                m
            },
        }
    }

    /// The answer for this error: its status and its message on a line.
    pub fn into_response(&self) -> (r: (u16, String))
        ensures
            r.0 == self.spec_status(),
            exists|m: Seq<char>| r.1@ == m + "\n"@,
    {
        let m = self.message();
        (self.status_code(), concat_str(m.as_str(), "\n"))
    }

    pub open spec fn spec_status(&self) -> u16 {
        match self {
            IngestRouterError::RequestBodyError(_) => 400u16,
            IngestRouterError::ResponseBodyError(_) => 502u16,
            IngestRouterError::UpstreamRequestFailed(_, _) => 502u16,
            IngestRouterError::UpstreamTimeout(_) => 504u16,
            IngestRouterError::ResponseSerializationError(_) => 500u16,
            IngestRouterError::ResponseBuildError(_) => 500u16,
            IngestRouterError::InternalError(_) => 500u16,
            IngestRouterError::ServiceUnavailable(_) => 503u16,
            IngestRouterError::Io(_) => 500u16,
        }
    }

    /// The HTTP status code for this error: the client's fault (400), an
    /// upstream's (502, or 504 for a timeout), ours (500), or no upstream
    /// available (503).
    pub fn status_code(&self) -> (s: u16)
        ensures
            s == match self {
                IngestRouterError::RequestBodyError(_) => 400u16,
                IngestRouterError::ResponseBodyError(_) => 502u16,
                IngestRouterError::UpstreamRequestFailed(_, _) => 502u16,
                IngestRouterError::UpstreamTimeout(_) => 504u16,
                IngestRouterError::ResponseSerializationError(_) => 500u16,
                IngestRouterError::ResponseBuildError(_) => 500u16,
                IngestRouterError::InternalError(_) => 500u16,
                IngestRouterError::ServiceUnavailable(_) => 503u16,
                IngestRouterError::Io(_) => 500u16,
            },
    {
        match self {
            IngestRouterError::RequestBodyError(_) => 400,
            IngestRouterError::ResponseBodyError(_) => 502,
            IngestRouterError::UpstreamRequestFailed(_, _) => 502,
            IngestRouterError::UpstreamTimeout(_) => 504,
            IngestRouterError::ResponseSerializationError(_) => 500,
            IngestRouterError::ResponseBuildError(_) => 500,
            IngestRouterError::InternalError(_) => 500,
            IngestRouterError::ServiceUnavailable(_) => 503,
            IngestRouterError::Io(_) => 500,
        }
    }
}

} // verus!
