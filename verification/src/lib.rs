//! A provider-agnostic search gateway: request validation, provider
//! ranking and selection, health tracking with circuit breaking, retryable
//! fallback across providers, a timed response cache, and the parsing rules
//! of the built-in providers.

pub mod text;
pub mod errors;
pub mod clock;
pub mod health;
pub mod cache;
pub mod models;
pub mod config;
pub mod ranking;
pub mod registry;
pub mod strategy;
pub mod fallback;
pub mod status;
pub mod ddg;
pub mod json;
pub mod http;
pub mod tavily;
pub mod cli;
pub mod service;
