//! Tool-use loop bookkeeping: retry policy, loop detection, signal voting,
//! tool registry, fallback hand-off and DAG planning.
pub mod dag;
pub mod executor;
pub mod fallback;
pub mod retry;
pub mod signal_voter;
pub mod tool_registry;
pub mod loop_detector;
pub mod stream;

use vstd::prelude::*;
use crate::llm::{ChatResponse, Message};

verus! {

/// Result of a finished tool-use loop: the last answer, the conversation that led to it and
/// the number of iterations.
#[derive(Debug)]
pub struct ToolUseResult {
    pub response: ChatResponse,
    pub messages: Vec<Message>,
    pub iterations: usize,
}

/// Result of running one tool.
#[derive(Debug)]
pub enum ToolCallResult {
    Success(String),
    Failure(String),
}

/// One tool call requested by the model: its id, tool name and the arguments as JSON text.
#[derive(Debug)]
pub struct ToolCall {
    pub id: String,
    pub name: String,
    pub arguments: String,
}

/// The (name, arguments) signature of a tool call.
pub open spec fn call_sig(c: ToolCall) -> (Seq<char>, Seq<char>) {
    (c.name@, c.arguments@)
}

/// The signature of a round of calls.
pub open spec fn round_sig(r: Seq<ToolCall>) -> Seq<(Seq<char>, Seq<char>)> {
    r.map_values(|c: ToolCall| call_sig(c))
}

} // verus!
