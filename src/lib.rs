//! Aggregation of weather observations, forecasts and alerts from several
//! sources, with a time-boxed cache, rate limiting and input validation.
pub mod auth;
pub mod config;
pub mod db_pool;
pub mod input_sanitizer;
pub mod pool_monitor;
pub mod provider;
pub mod ssl_config;
pub mod utils;
