//! Competitive developer ranks from GitHub contributions: the verified core.
//!
//! Every module here is logic over plain values, each public function with a
//! contract. The clock, random ids and a few library lookups come in through
//! small trusted wrappers; the network, the cache stores and floating-point
//! maths live with the HTTP service that wraps this crate.

pub mod auth;
pub mod cache;
pub mod config;
pub mod credential;
pub mod error;
pub mod github;
pub mod glyph_table;
pub mod metrics;
pub mod render;
pub mod routes;
pub mod service;
pub mod ranking;
pub mod strings;
pub mod token_pool;
pub mod validation;
