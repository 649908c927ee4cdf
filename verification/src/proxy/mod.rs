pub mod admin_service;
pub mod config;
pub mod errors;
pub mod proxy_service;
pub mod resolvers;
pub mod upstreams;
pub mod route_actions;
pub mod rules_engine;
pub mod utils;
pub mod proxy;
