//! Providers: the configured providers, masked for display, and the plan a router is
//! built from; the request bodies each API is sent and the reading of its responses.
pub mod base;
pub mod config;
pub mod openai;
pub mod openai_compat;
pub mod anthropic;

pub use config::{LlmConfigSnapshot, LlmConfigStore, ProviderConfig, build_model_router};
