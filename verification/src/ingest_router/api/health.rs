//! The relay health endpoint: healthy when any one cell is.

use crate::ingest_router::api::any_cell_handler::SERVICE_UNAVAILABLE;
use crate::ingest_router::handler::{find_first_success, first_success_index, CellId};
use crate::ingest_router::locale::Cells;
use vstd::prelude::*;

verus! {

/// Health check handler for `/api/0/relays/live/`.
pub struct HealthHandler;

impl HealthHandler {
    /// The health check goes to every cell.
    pub fn split_request(&self, cells: &Cells) -> (v: Vec<CellId>)
        ensures
            v@.len() == cells.cell_order().len(),
            forall|i: int| 0 <= i < v@.len() ==> (#[trigger] v@[i])@ == cells.cell_order()[i],
    {
        cells.cell_list()
    }

    /// The first successful answer is returned as it is; without one the
    /// service is unavailable.
    pub fn merge_responses(&self, statuses: &Vec<Option<u16>>) -> (r: Result<usize, u16>)
        ensures
            match r {
                Ok(i) => first_success_index(statuses@) == Some(i as int),
                Err(s) => s == SERVICE_UNAVAILABLE && first_success_index(statuses@) is None,
            },
    {
        match find_first_success(statuses) {
            Some(i) => Ok(i),
            None => Err(SERVICE_UNAVAILABLE),
        }
    }
}

} // verus!
