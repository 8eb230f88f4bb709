//! LLM-side logic: prompt slots, configuration snapshots, model routing, provider
//! response reading, structured-output text repair and the tool-use loop.
pub mod config_store;
pub mod prompt_builder;
pub mod provider;
pub mod router;
pub mod structured_output;
pub mod tool_use_loop;

use vstd::prelude::*;
use crate::json::{Json, JsonNumber};
use crate::text::{concat2, decimal_seq, decimal_string, join_seq, join_strings, lemma_names_push, names_view};
use crate::token::tracker::TokenUsage;
use prompt_builder::CachedTool;
use tool_use_loop::ToolCall;

verus! {

/// Errors of LLM calls.
#[derive(Debug)]
pub enum LlmError {
    /// No API key is configured for the provider.
    MissingApiKey { provider: String },
    /// A response could not be read.
    ParseError { detail: String },
    /// The API answered with an error status (0: no answer).
    ApiError { status: u16, body: String },
    /// The request timed out.
    Timeout,
    /// The request cannot be served as asked.
    InvalidRequest { message: String },
    /// A provider-level failure.
    Provider { provider: String, status: Option<u16>, code: Option<String>, message: String },
}

/// The text of an LLM error, as it is shown to users.
pub open spec fn llm_error_text(e: LlmError) -> Seq<char> {
    match e {
        LlmError::MissingApiKey { provider } => "missing API key for "@ + provider@,
        LlmError::ParseError { detail } => "parse error: "@ + detail@,
        LlmError::ApiError { status, body } => "API error "@ + decimal_seq(status as nat) + ": "@ + body@,
        LlmError::Timeout => "request timed out"@,
        LlmError::InvalidRequest { message } => "invalid request: "@ + message@,
        LlmError::Provider { provider, status, code: _, message } => match status {
            Some(st) => provider@ + " error "@ + decimal_seq(st as nat) + ": "@ + message@,
            None => provider@ + " error: "@ + message@,
        },
    }
}

impl LlmError {
    /// The text of the error, as it is shown to users.
    pub fn to_string(&self) -> (s: String)
        ensures
            s@ == llm_error_text(*self),
    {
        match self {
            LlmError::MissingApiKey { provider } => concat2("missing API key for ", provider.as_str()),
            LlmError::ParseError { detail } => concat2("parse error: ", detail.as_str()),
            LlmError::ApiError { status, body } => {
                let mut s = concat2("API error ", decimal_string(*status as u64).as_str());
                s.append(": ");
                s.append(body.as_str());
                s
            },
            LlmError::Timeout => crate::text::owned("request timed out"),
            LlmError::InvalidRequest { message } => concat2("invalid request: ", message.as_str()),
            LlmError::Provider { provider, status, code: _, message } => match status {
                Some(st) => {
                    let mut s = concat2(provider.as_str(), " error ");
                    s.append(decimal_string(*st as u64).as_str());
                    s.append(": ");
                    s.append(message.as_str());
                    s
                },
                None => {
                    let mut s = concat2(provider.as_str(), " error: ");
                    s.append(message.as_str());
                    s
                },
            },
        }
    }
}

/// A text block of a system message; a block with a cache breakpoint marks the end of a
/// prefix that a provider may cache.
#[derive(Debug)]
pub struct TextBlock {
    pub text: String,
    pub cache_breakpoint: bool,
}

/// Text blocks as (text, breakpoint) pairs.
pub open spec fn blocks_view(v: Seq<TextBlock>) -> Seq<(Seq<char>, bool)> {
    v.map_values(|b: TextBlock| (b.text@, b.cache_breakpoint))
}

/// The texts of blocks.
pub open spec fn block_texts(v: Seq<TextBlock>) -> Seq<Seq<char>> {
    v.map_values(|b: TextBlock| b.text@)
}

/// The plain text of blocks, for providers without cache markers: the block texts
/// separated by blank lines.
pub open spec fn flat_text(v: Seq<TextBlock>) -> Seq<char> {
    join_seq(block_texts(v), "\n\n"@)
}

/// The plain text of blocks: their texts separated by blank lines.
pub fn flatten_text(blocks: &Vec<TextBlock>) -> (s: String)
    ensures
        s@ == flat_text(blocks@),
{
    let mut texts: Vec<String> = Vec::new();
    let mut i: usize = 0;
    while i < blocks.len()
        invariant
            i <= blocks.len(),
            names_view(texts@) =~= block_texts(blocks@.subrange(0, i as int)),
        decreases blocks.len() - i,
    {
        let t = crate::text::owned(blocks[i].text.as_str());
        proof {
            lemma_names_push(texts@, t);
        }
        texts.push(t);
        i = i + 1;
        assert(names_view(texts@) =~= block_texts(blocks@.subrange(0, i as int)));
    }
    assert(blocks@.subrange(0, blocks.len() as int) =~= blocks@);
    join_strings(&texts, "\n\n")
}

/// A system message of one text block without a cache breakpoint.
pub fn system_text(text: &str) -> (m: Message)
    ensures
        m matches Message::System { content } && blocks_view(content@) == seq![(text@, false)] && flat_text(content@)
            == text@,
{
    let content = vec![TextBlock { text: crate::text::owned(text), cache_breakpoint: false }];
    assert(blocks_view(content@) =~= seq![(text@, false)]);
    assert(block_texts(content@) =~= seq![text@]);
    Message::System { content }
}

/// A chat message.
#[derive(Debug)]
pub enum Message {
    /// System text, as blocks that may carry cache breakpoints.
    System { content: Vec<TextBlock> },
    User { content: String },
    Assistant { content: String, tool_calls: Vec<ToolCall> },
    /// The result of a tool call, or its error.
    Tool { tool_call_id: String, content: String, is_error: bool },
}

/// How a request asks the model to use tools.
#[derive(Debug)]
pub enum ToolChoice {
    /// This tool must be called.
    Tool { name: String },
    /// Some tool must be called.
    Any,
}

/// A chat request. An empty `model` stands for the provider's default model; the
/// temperature is a JSON number, 0.0 when absent.
#[derive(Debug)]
pub struct ChatRequest {
    pub model: String,
    pub messages: Vec<Message>,
    pub tools: Option<Vec<CachedTool>>,
    pub temperature: Option<JsonNumber>,
    pub tool_choice: Option<ToolChoice>,
    pub stop_sequences: Option<Vec<String>>,
    pub prefill: Option<String>,
}

/// The answer of a chat call: its text, the tool calls it asks for, token usage and the
/// raw response document.
#[derive(Debug)]
pub struct ChatResponse {
    pub content: String,
    pub tool_calls: Vec<ToolCall>,
    pub usage: TokenUsage,
    pub raw: Json,
}

/// Reading the text of an answer.
pub trait ChatResponseExt {
    /// The text of the answer, all its text joined.
    fn text_content(&self) -> String;
}

impl ChatResponseExt for ChatResponse {
    fn text_content(&self) -> (s: String)
        ensures
            s@ == self.content@,
    {
        crate::text::owned(self.content.as_str())
    }
}

} // verus!
