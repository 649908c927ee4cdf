//! Routing logic for a cell-based ingestion architecture: request matching,
//! organization-to-cell lookup, and the split and merge of fan-out requests.

pub mod ingest_router;
pub mod locator;
pub mod proxy;
pub mod support;
