//! A handler that sends a request to one downstream service.

use crate::ingest_router::fanout_handler::DEFAULT_TIMEOUT_SECS;
use vstd::prelude::*;

verus! {

/// Forwards requests to a single downstream service at one of its URLs.
pub struct ForwardHandler {
    target_urls: Vec<String>,
    timeout_secs: u64,
}

impl ForwardHandler {
    pub closed spec fn targets_view(&self) -> Seq<String> {
        self.target_urls@
    }

    pub closed spec fn timeout_view(&self) -> u64 {
        self.timeout_secs
    }

    /// A handler for the target URLs, with the default timeout.
    pub fn new(target_urls: Vec<String>) -> (h: Self)
        ensures
            h.targets_view() == target_urls@,
            h.timeout_view() == DEFAULT_TIMEOUT_SECS,
    {
        ForwardHandler { target_urls, timeout_secs: DEFAULT_TIMEOUT_SECS }
    }

    /// The same handler with another timeout.
    pub fn with_timeout(self, timeout_secs: u64) -> (h: Self)
        ensures
            h.targets_view() == self.targets_view(),
            h.timeout_view() == timeout_secs,
    {
        let mut h = self;
        h.timeout_secs = timeout_secs;
        h
    }

    /// The timeout, in seconds.
    pub fn timeout_secs(&self) -> (t: u64)
        ensures
            t == self.timeout_view(),
    {
        self.timeout_secs
    }

    pub fn name(&self) -> (n: &'static str)
        ensures
            n@ == "forward"@,
    {
        "forward"
    }
}

} // verus!
