//! A handler that sends a request to several downstream services.

use vstd::prelude::*;

verus! {

/// Timeout of a handler unless set otherwise, in seconds.
pub const DEFAULT_TIMEOUT_SECS: u64 = 30;

/// Sends requests to several downstream services and gathers their
/// answers.
pub struct FanOutHandler {
    targets: Vec<String>,
    timeout_secs: u64,
}

impl FanOutHandler {
    pub closed spec fn targets_view(&self) -> Seq<String> {
        self.targets@
    }

    pub closed spec fn timeout_view(&self) -> u64 {
        self.timeout_secs
    }

    /// A handler for the targets, with the default timeout.
    pub fn new(targets: Vec<String>) -> (h: Self)
        ensures
            h.targets_view() == targets@,
            h.timeout_view() == DEFAULT_TIMEOUT_SECS,
    {
        FanOutHandler { targets, timeout_secs: DEFAULT_TIMEOUT_SECS }
    }

    /// The same handler with another timeout.
    pub fn with_timeout(self, timeout_secs: u64) -> (h: Self)
        ensures
            h.targets_view() == self.targets_view(),
            h.timeout_view() == timeout_secs,
    {
        let mut h = self;
        h.timeout_secs = timeout_secs;
        h
    }

    /// The timeout, in seconds.
    pub fn timeout_secs(&self) -> (t: u64)
        ensures
            t == self.timeout_view(),
    {
        self.timeout_secs
    }

    pub fn name(&self) -> (n: &'static str)
        ensures
            n@ == "fan_out"@,
    {
        "fan_out"
    }
}

} // verus!
