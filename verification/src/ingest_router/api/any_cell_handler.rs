//! Endpoints that any single cell can answer: the request goes to every
//! cell in priority order and the first success is returned.

use crate::ingest_router::handler::{
    find_first_success, first_success_index, CellId, ExecutionMode,
};
use crate::ingest_router::locale::Cells;
use vstd::prelude::*;

verus! {

/// Status returned when no cell answered with a success.
pub const SERVICE_UNAVAILABLE: u16 = 503;

/// Handler for endpoints that can be routed to any cell (relay health,
/// registration challenge and response).
pub struct AnyCellHandler {
    name: &'static str,
}

impl AnyCellHandler {
    /// The name given at construction.
    pub closed spec fn handler_name(&self) -> &'static str {
        self.name
    }

    pub fn new(name: &'static str) -> (h: Self)
        ensures
            h.handler_name() == name,
    {
        AnyCellHandler { name }
    }

    pub fn name(&self) -> (n: &'static str)
        ensures
            n == self.handler_name(),
    {
        self.name
    }

    /// Cells are tried one at a time, stopping at the first success.
    pub fn execution_mode(&self) -> (m: ExecutionMode)
        ensures
            m == ExecutionMode::Failover,
    {
        ExecutionMode::Failover
    }

    /// The request goes to every cell, in the cells' order.
    pub fn split_request(&self, cells: &Cells) -> (v: Vec<CellId>)
        ensures
            v@.len() == cells.cell_order().len(),
            forall|i: int| 0 <= i < v@.len() ==> (#[trigger] v@[i])@ == cells.cell_order()[i],
    {
        cells.cell_list()
    }

    /// Given the status of each cell's answer (`None`: no answer), the
    /// position of the answer to return, or the error status when no cell
    /// succeeded.
    pub fn merge_responses(&self, statuses: &Vec<Option<u16>>) -> (r: Result<usize, u16>)
        ensures
            match r {
                Ok(i) => first_success_index(statuses@) == Some(i as int),
                Err(s) => s == SERVICE_UNAVAILABLE && first_success_index(statuses@) is None,
            },
    {
        match find_first_success(statuses) {
            Some(i) => Ok(i),
            None => Err(SERVICE_UNAVAILABLE),
        }
    }
}

} // verus!
