//! The relay registration challenge endpoint, which has no split or merge
//! of its own yet.

use vstd::prelude::*;

verus! {

/// Handler for the relay registration challenge.
pub struct RegisterChallenge;

} // verus!
