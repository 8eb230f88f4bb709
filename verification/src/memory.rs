//! Agent memory: the kinds of memory entries and the short-term ring buffer.
pub mod short_term;

use vstd::prelude::*;

pub use short_term::ShortTermMemory;

verus! {

/// Kind of a memory entry.
#[derive(PartialEq, Eq, Structural, Clone, Copy, Debug)]
pub enum MemoryType {
    ToolCall,
    ToolResult,
    LlmResponse,
    UserInput,
    Decision,
    Summary,
}

/// The stored name of a kind.
pub open spec fn type_text(t: MemoryType) -> Seq<char> {
    match t {
        MemoryType::ToolCall => "ToolCall"@,
        MemoryType::ToolResult => "ToolResult"@,
        MemoryType::LlmResponse => "LlmResponse"@,
        MemoryType::UserInput => "UserInput"@,
        MemoryType::Decision => "Decision"@,
        MemoryType::Summary => "Summary"@,
    }
}

impl MemoryType {
    /// The name under which the kind is stored.
    pub fn stored_name(&self) -> (s: &'static str)
        ensures
            s@ == type_text(*self),
    {
        match self {
            MemoryType::ToolCall => "ToolCall",
            MemoryType::ToolResult => "ToolResult",
            MemoryType::LlmResponse => "LlmResponse",
            MemoryType::UserInput => "UserInput",
            MemoryType::Decision => "Decision",
            MemoryType::Summary => "Summary",
        }
    }
}

/// The keywords of a long-term entry as stored: joined by commas.
pub fn keywords_field(keywords: &Vec<String>) -> (s: String)
    ensures
        s@ == crate::text::join_seq(crate::text::names_view(keywords@), ","@),
{
    crate::text::join_strings(keywords, ",")
}

/// The pattern that finds entries whose keywords contain `keyword`.
pub fn keyword_pattern(keyword: &str) -> (s: String)
    ensures
        s@ == "%"@ + keyword@ + "%"@,
{
    let mut s = crate::text::concat2("%", keyword);
    s.append("%");
    s
}

} // verus!
