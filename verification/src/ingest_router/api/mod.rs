pub mod any_cell_handler;
pub mod health;
pub mod project_config;
pub mod public_keys;
pub mod register_challenge;
pub mod utils;
