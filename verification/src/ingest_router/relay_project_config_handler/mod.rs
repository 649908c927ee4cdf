//! The relay project configs endpoint handled by splitting the keys over
//! the cells of a locality, asking them in parallel and merging what they
//! answer.

pub mod merger;
pub mod protocol;
pub mod splitter;
pub mod task_executor;

use crate::ingest_router::config::{CellConfig, RelayTimeouts};
use crate::ingest_router::errors::IngestRouterError;
use crate::ingest_router::locale::{Cells, Locales};
use crate::ingest_router::relay_project_config_handler::merger::MergedResults;
use crate::ingest_router::relay_project_config_handler::protocol::ProjectConfigsRequest;
use crate::ingest_router::relay_project_config_handler::splitter::{
    round_robin_groups, PublicKeyRouter, SplitRequest,
};
use crate::support::strmap::StrMap;
use crate::support::text::concat_str;
use vstd::prelude::*;

verus! {

/// Handler for the relay project configs endpoint.
pub struct RelayProjectConfigsHandler {
    pub locales: Locales,
    pub timeouts: RelayTimeouts,
}

impl RelayProjectConfigsHandler {
    pub open spec fn wf(&self) -> bool {
        self.locales.wf()
    }

    /// A handler for the configured locales.
    pub fn new(locales_config: StrMap<Vec<CellConfig>>, timeouts: RelayTimeouts) -> (h: Self)
        requires
            locales_config.wf(),
        ensures
            h.wf(),
            h.locales.locale_to_cells@.dom() == locales_config@.dom(),
            h.timeouts == timeouts,
    {
        RelayProjectConfigsHandler { locales: Locales::new(locales_config), timeouts }
    }

    /// The cells that serve a locale; an internal error when the locale has
    /// no targets.
    pub fn handle(&self, locale: &str) -> (r: Result<Cells, IngestRouterError>)
        requires
            self.wf(),
        ensures
            match r {
                Ok(c) => self.locales.locale_to_cells@.contains_key(locale@) && c.wf()
                    && c.upstreams() == self.locales.locale_to_cells@[locale@].upstreams()
                    && c.cell_order() == self.locales.locale_to_cells@[locale@].cell_order(),
                Err(e) => !self.locales.locale_to_cells@.contains_key(locale@) && (e matches IngestRouterError::InternalError(m)
                    && m@ == "No targets configured for locale: "@ + locale@),
            },
    {
        match self.locales.get_cells(locale) {
            Some(c) => Ok(c),
            None => Err(IngestRouterError::InternalError(concat_str("No targets configured for locale: ", locale))),
        }
    }

    /// The keys of the request spread over the cells in turn, one request
    /// per cell that gets keys.
    pub fn split_keys_by_upstream(&self, request: &ProjectConfigsRequest, cells: &Cells) -> (r: Vec<
        SplitRequest,
    >)
        requires
            cells.wf(),
        ensures
            r@.map_values(|s: SplitRequest| s.cell_name@).no_duplicates(),
            r@.map_values(|s: SplitRequest| s.cell_name@).to_set() == round_robin_groups(
                request.public_keys@,
                cells.cell_order(),
            ).dom(),
            forall|i: int|
                0 <= i < r@.len() ==> {
                    &&& (#[trigger] r@[i]).request.public_keys@ == round_robin_groups(
                        request.public_keys@,
                        cells.cell_order(),
                    )[r@[i].cell_name@]
                    &&& cells.upstreams().contains_key(r@[i].cell_name@)
                    &&& r@[i].upstream == cells.upstreams()[r@[i].cell_name@]
                    &&& r@[i].request.extra_fields@ == request.extra_fields@
                },
    {
        PublicKeyRouter::new().split(request, cells)
    }

    /// What the merged results are answered with: service unavailable when
    /// keys were asked for and nothing came back, neither a config nor a
    /// pending key; otherwise the merged answer.
    pub fn check_results(results: &MergedResults, request: &ProjectConfigsRequest) -> (r: Result<(), IngestRouterError>)
        requires
            results.wf(),
        ensures
            match r {
                Ok(()) => !(results.project_configs@.len() == 0 && results.pending_keys@.len() == 0
                    && request.public_keys@.len() > 0),
                Err(e) => results.project_configs@.len() == 0 && results.pending_keys@.len() == 0
                    && request.public_keys@.len() > 0 && (e matches IngestRouterError::ServiceUnavailable(m)
                    && m@ == "All upstream cells are unavailable"@),
            },
    {
        if results.is_empty(request.public_keys.len() > 0) {
            Err(IngestRouterError::ServiceUnavailable("All upstream cells are unavailable".to_owned()))
        } else {
            Ok(())
        }
    }
}

} // verus!
