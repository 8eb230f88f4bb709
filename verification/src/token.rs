//! Token accounting: per-call usage against a budget, the layered context window and
//! progressive summarisation.
pub mod summarizer;
pub mod tracker;
pub mod window;

pub use summarizer::{CompressionPhase, CompressionStrategy, CompressionTrigger, Summarizer, SummarizerConfig, SummaryResult};
pub use tracker::{TokenTracker, TokenUsage};
pub use window::{ContextLayer, ContextWindow, Layer};
