//! Bodies of the relay project configs endpoint, with JSON values that
//! are passed through unchanged held as their text.

use crate::support::strmap::StrMap;
use vstd::prelude::*;

verus! {

/// A project configs request: the public keys and every other field
/// (`global`, `noCache`, later additions), passed through as they are.
#[derive(Debug, PartialEq, Eq)]
pub struct ProjectConfigsRequest {
    pub public_keys: Vec<String>,
    pub extra_fields: StrMap<String>,
}

/// A project configs answer: configs by key, keys still pending (absent
/// when there are none), and every other field.
#[derive(Debug, PartialEq, Eq)]
pub struct ProjectConfigsResponse {
    pub project_configs: StrMap<String>,
    pub pending_keys: Option<Vec<String>>,
    pub extra_fields: StrMap<String>,
}

impl ProjectConfigsResponse {
    pub open spec fn wf(&self) -> bool {
        self.project_configs.wf() && self.extra_fields.wf()
    }
}

} // verus!
