pub mod api;
pub mod backup_routes;
pub mod client;
pub mod negative_cache;
pub mod config;
pub mod control_plane;
pub mod cursor;
pub mod types;
pub mod locator;
pub mod org_cell_fetching;
pub mod org_to_cell_mapping;
