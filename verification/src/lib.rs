//! Verified core of the AXON agent platform: rate limiting, routing,
//! stream decoding, configuration rules and text processing.

pub mod window;
pub mod strmap;
pub mod text;
pub mod error;
pub mod models;
pub mod config;
pub mod clock;
pub mod rate_store;
pub mod limiter;
pub mod web_search;
pub mod stream;
pub mod provider;
pub mod gateway;
pub mod store;
pub mod runtime;
pub mod protocol;
pub mod api;
pub mod tools;
