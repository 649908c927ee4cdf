//! The proxy's admin endpoints: liveness and readiness.

use crate::proxy::utils::{error_body, make_error_response};
use vstd::prelude::*;

verus! {

/// The admin service; whether the locator is ready is asked outside.
pub struct AdminService {}

impl AdminService {
    pub fn new() -> (s: Self) {
        AdminService {  }
    }

    /// The answer to an admin request: `/health` is always fine, `/ready`
    /// is fine once the locator is ready (503 before), anything else is
    /// not found.
    pub fn call(&self, path: &str, is_ready: bool) -> (r: (u16, String))
        ensures
            if path@ == "/health"@ || (path@ == "/ready"@ && is_ready) {
                r.0 == 200 && r.1@ == "ok\n"@
            } else if path@ == "/ready"@ {
                r.0 == 503 && r.1@ == error_body(503)
            } else {
                r.0 == 404 && r.1@ == error_body(404)
            },
    {
        if crate::support::text::str_eq(path, "/health") {
            (200, "ok\n".to_owned())
        } else if crate::support::text::str_eq(path, "/ready") {
            if is_ready {
                (200, "ok\n".to_owned())
            } else {
                make_error_response(503)
            }
        } else {
            make_error_response(404)
        }
    }
}

} // verus!
