//! CubeSandbox back end: configuration, envd addressing and the Connect stream of
//! process events.
pub mod client;
pub mod config;

pub use config::CubeSandboxConfig;
