pub mod api;
pub mod auth;
pub mod config;
pub mod errors;
pub mod locale;
pub mod project_config;
pub mod relay_project_config_handler;
pub mod router;
pub mod routing;
pub mod executor;
pub mod fanout_handler;
pub mod forwarding_handler;
pub mod handler;
pub mod http;
