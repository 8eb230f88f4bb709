//! Progressive summarisation: phases by round, local extractive summaries and the
//! reading of an LLM-produced summary.
use vstd::prelude::*;
use crate::json::{Json, JsonNumber};
use crate::llm::prompt_builder::CachedTool;
use crate::llm::tool_use_loop::tool_registry::ToolDefinition;
use crate::llm::{blocks_view, system_text, ChatRequest, Message, ToolChoice};
use crate::llm::prompt_builder::{estimate_tokens, token_estimate};
use crate::text::{
    chars_of, concat2, decimal_seq, lemma_names_push, decimal_string, join_seq, join_strings, last_index_of,
    lemma_last_index_of, names_view, owned, push_chars, rfind_char, slice_chars, take_chars, trim_chars, trim_seq,
};

verus! {

/// Phase of compression.
#[derive(PartialEq, Eq, Structural, Clone, Copy, Debug)]
pub enum CompressionPhase {
    Linear,
    Summary,
    Structured,
}

/// A summary and its token counts before and after.
#[derive(Debug, Clone)]
pub struct SummaryResult {
    pub summary: String,
    pub key_decisions: Vec<String>,
    pub action_items: Vec<String>,
    pub original_tokens: u32,
    pub compressed_tokens: u32,
}

/// How messages are summarised.
#[derive(PartialEq, Eq, Structural, Clone, Copy, Debug)]
pub enum CompressionStrategy {
    PerMessage,
    Batch,
}

/// What asks for compression.
#[derive(PartialEq, Eq, Structural, Clone, Copy, Debug)]
pub enum CompressionTrigger {
    /// The round threshold was reached: fast local compression.
    RoundThreshold,
    /// Token use is near the limit: deep compression by an LLM.
    TokenBudget,
}

/// Thresholds of the summariser. The token-usage threshold, a percentage, is held by the
/// caller, which compares it with the usage.
#[derive(Debug, Clone)]
pub struct SummarizerConfig {
    /// Round from which local compression is asked for.
    pub summary_threshold: u32,
    /// Round after which the structured phase starts.
    pub structure_threshold: u32,
    /// Rounds kept in the linear layer.
    pub linear_window: u32,
    /// Characters kept per message in a local summary.
    pub local_summary_chars: usize,
}

impl Default for SummarizerConfig {
    fn default() -> (c: SummarizerConfig)
        ensures
            c.summary_threshold == 10,
            c.structure_threshold == 15,
            c.linear_window == 5,
            c.local_summary_chars == 200,
    {
        SummarizerConfig { summary_threshold: 10, structure_threshold: 15, linear_window: 5, local_summary_chars: 200 }
    }
}

/// Sum of the token estimates of `msgs`.
pub open spec fn tokens_sum(msgs: Seq<Seq<char>>) -> int
    decreases msgs.len(),
{
    if msgs.len() == 0 { 0 } else { tokens_sum(msgs.drop_last()) + token_estimate(msgs.last()) }
}

/// The local summary line of message number `n` (from 1): its first `max` characters cut
/// after the last line break (the break dropped), else after the last `.` or `。` (kept),
/// trimmed; with no such boundary the whole window trimmed and `…` appended.
pub open spec fn summary_line(n: nat, m: Seq<char>, max: nat) -> Seq<char> {
    let w = take_chars(m, max);
    let prefix = "["@ + decimal_seq(n) + "] "@;
    let nl = last_index_of(w, '\n');
    let dot = last_index_of(w, '.');
    let cdot = last_index_of(w, '。');
    if nl >= 0 {
        prefix + trim_seq(w.subrange(0, nl))
    } else if dot >= 0 {
        prefix + trim_seq(w.subrange(0, dot + 1))
    } else if cdot >= 0 {
        prefix + trim_seq(w.subrange(0, cdot + 1))
    } else {
        prefix + trim_seq(w) + "…"@
    }
}

/// The summary lines of all messages.
pub open spec fn summary_lines(msgs: Seq<Seq<char>>, max: nat) -> Seq<Seq<char>> {
    Seq::new(msgs.len(), |i: int| summary_line((i + 1) as nat, msgs[i], max))
}

/// The local summary text: the summary lines joined by line breaks.
pub open spec fn local_summary(msgs: Seq<Seq<char>>, max: nat) -> Seq<char> {
    join_seq(summary_lines(msgs, max), "\n"@)
}

/// The strings of an array value, other elements skipped; nothing for other values.
pub open spec fn string_items(v: Option<Json>) -> Seq<Seq<char>> {
    match v {
        Some(j) => match j.array_spec() {
            Some(a) => strings_in(a),
            None => Seq::empty(),
        },
        None => Seq::empty(),
    }
}

/// The string elements of `a`, in order.
pub open spec fn strings_in(a: Seq<Json>) -> Seq<Seq<char>>
    decreases a.len(),
{
    if a.len() == 0 {
        Seq::empty()
    } else {
        match a.last().str_spec() {
            Some(s) => strings_in(a.drop_last()).push(s),
            None => strings_in(a.drop_last()),
        }
    }
}

/// Sum of the token estimates of `msgs`, which must fit in `u32`.
fn tokens_sum_exec(msgs: &[String]) -> (n: u32)
    requires
        tokens_sum(names_view(msgs@)) <= u32::MAX,
    ensures
        n == tokens_sum(names_view(msgs@)),
{
    let mut total: u32 = 0;
    let mut i: usize = 0;
    while i < msgs.len()
        invariant
            i <= msgs.len(),
            tokens_sum(names_view(msgs@)) <= u32::MAX,
            total == tokens_sum(names_view(msgs@).subrange(0, i as int)),
        decreases msgs.len() - i,
    {
        proof {
            assert(names_view(msgs@).subrange(0, i + 1).drop_last() =~= names_view(msgs@).subrange(0, i as int));
            lemma_tokens_sum_prefix(names_view(msgs@), i + 1);
        }
        total = total + estimate_tokens(msgs[i].as_str());
        i = i + 1;
    }
    assert(names_view(msgs@).subrange(0, msgs.len() as int) =~= names_view(msgs@));
    total
}

/// Whether the token estimates of `msgs` sum to at most `u32::MAX`.
pub fn tokens_fit(msgs: &[String]) -> (b: bool)
    ensures
        b == (tokens_sum(names_view(msgs@)) <= u32::MAX),
{
    let mut total: u64 = 0;
    let mut i: usize = 0;
    while i < msgs.len()
        invariant
            i <= msgs.len(),
            total == tokens_sum(names_view(msgs@).subrange(0, i as int)),
            total <= u32::MAX,
        decreases msgs.len() - i,
    {
        proof {
            assert(names_view(msgs@).subrange(0, i + 1).drop_last() =~= names_view(msgs@).subrange(0, i as int));
        }
        total = total + estimate_tokens(msgs[i].as_str()) as u64;
        i = i + 1;
        if total > 4294967295u64 {
            proof {
                lemma_tokens_sum_prefix(names_view(msgs@), i as int);
            }
            return false;
        }
    }
    assert(names_view(msgs@).subrange(0, msgs.len() as int) =~= names_view(msgs@));
    true
}

/// Token sums only grow along a sequence.
proof fn lemma_tokens_sum_prefix(msgs: Seq<Seq<char>>, k: int)
    requires
        0 <= k <= msgs.len(),
    ensures
        0 <= tokens_sum(msgs.subrange(0, k)) <= tokens_sum(msgs),
    decreases msgs.len(),
{
    if msgs.len() > 0 {
        if k == msgs.len() {
            assert(msgs.subrange(0, k) =~= msgs);
            lemma_tokens_sum_prefix(msgs.drop_last(), k - 1);
        } else {
            lemma_tokens_sum_prefix(msgs.drop_last(), k);
            assert(msgs.drop_last().subrange(0, k) =~= msgs.subrange(0, k));
        }
    }
}

/// The summary line of message number `n`.
fn summary_line_exec(n: u64, m: &str, max: usize) -> (r: String)
    ensures
        r@ == summary_line(n as nat, m@, max as nat),
{
    let cv = chars_of(m);
    let w = if cv.len() <= max { cv } else { slice_chars(&cv, 0, max) };
    assert(w@ == take_chars(m@, max as nat));
    let mut r = concat2("[", decimal_string(n).as_str());
    r.append("] ");
    proof {
        lemma_last_index_of(w@, '\n');
        lemma_last_index_of(w@, '.');
        lemma_last_index_of(w@, '。');
    }
    match rfind_char(&w, '\n') {
        Some(pos) => {
            let t = trim_chars(&slice_chars(&w, 0, pos));
            push_chars(&mut r, &t);
        },
        None => match rfind_char(&w, '.') {
            Some(pos) => {
                let t = trim_chars(&slice_chars(&w, 0, pos + 1));
                push_chars(&mut r, &t);
            },
            None => match rfind_char(&w, '。') {
                Some(pos) => {
                    let t = trim_chars(&slice_chars(&w, 0, pos + 1));
                    push_chars(&mut r, &t);
                },
                None => {
                    let t = trim_chars(&w);
                    push_chars(&mut r, &t);
                    r.append("…");
                },
            },
        },
    }
    r
}

/// The string elements of an array value.
fn string_items_exec(v: Option<&Json>) -> (r: Vec<String>)
    ensures
        names_view(r@) == string_items(match v {
            Some(j) => Some(*j),
            None => None,
        }),
{
    let mut r: Vec<String> = Vec::new();
    match v {
        Some(j) => match j.as_array() {
            Some(a) => {
                let mut i: usize = 0;
                while i < a.len()
                    invariant
                        i <= a.len(),
                        names_view(r@) == strings_in(a@.subrange(0, i as int)),
                    decreases a.len() - i,
                {
                    proof {
                        assert(a@.subrange(0, i + 1).drop_last() =~= a@.subrange(0, i as int));
                    }
                    match a[i].as_str() {
                        Some(s) => {
                            r.push(owned(s));
                            assert(names_view(r@) =~= strings_in(a@.subrange(0, i as int)).push(s@));
                        },
                        None => {},
                    }
                    i = i + 1;
                }
                assert(a@.subrange(0, a.len() as int) =~= a@);
            },
            None => {
                assert(names_view(r@) =~= Seq::<Seq<char>>::empty());
            },
        },
        None => {
            assert(names_view(r@) =~= Seq::<Seq<char>>::empty());
        },
    }
    r
}

/// Progressive three-phase summariser.
pub struct Summarizer {
    pub config: SummarizerConfig,
}

impl Default for Summarizer {
    fn default() -> (s: Summarizer)
        ensures
            s.config.summary_threshold == 10,
            s.config.structure_threshold == 15,
            s.config.linear_window == 5,
            s.config.local_summary_chars == 200,
    {
        Summarizer { config: SummarizerConfig::default() }
    }
}

impl Summarizer {
    /// A summariser with the given thresholds.
    pub fn new(config: SummarizerConfig) -> (s: Summarizer)
        ensures
            s.config == config,
    {
        Summarizer { config }
    }

    /// The phase for a round: linear up to the summary threshold, then summary up to the
    /// structure threshold, then structured.
    pub fn current_phase(&self, round_count: u32) -> (p: CompressionPhase)
        ensures
            p == (if round_count <= self.config.summary_threshold {
                CompressionPhase::Linear
            } else if round_count <= self.config.structure_threshold {
                CompressionPhase::Summary
            } else {
                CompressionPhase::Structured
            }),
    {
        if round_count <= self.config.summary_threshold {
            CompressionPhase::Linear
        } else if round_count <= self.config.structure_threshold {
            CompressionPhase::Summary
        } else {
            CompressionPhase::Structured
        }
    }

    /// Which compression to run: the token budget first (`budget_reached` says whether
    /// token use reached its threshold), then the round threshold.
    pub fn should_compress(&self, round_count: u32, budget_reached: bool) -> (t: Option<CompressionTrigger>)
        ensures
            t == (if budget_reached {
                Some(CompressionTrigger::TokenBudget)
            } else if round_count >= self.config.summary_threshold {
                Some(CompressionTrigger::RoundThreshold)
            } else {
                None
            }),
    {
        if budget_reached {
            return Some(CompressionTrigger::TokenBudget);
        }
        if round_count >= self.config.summary_threshold {
            return Some(CompressionTrigger::RoundThreshold);
        }
        None
    }

    /// Estimated tokens of a text.
    pub fn estimate_tokens(s: &str) -> (n: u32)
        ensures
            n == token_estimate(s@),
    {
        estimate_tokens(s)
    }

    /// Local summary of `messages`: one numbered line per message, cut at a sentence
    /// boundary within the character window.
    pub fn summarize_local(&self, messages: &[String]) -> (r: SummaryResult)
        requires
            tokens_sum(names_view(messages@)) <= u32::MAX,
            messages@.len() < u64::MAX,
        ensures
            r.summary@ == local_summary(names_view(messages@), self.config.local_summary_chars as nat),
            r.key_decisions@.len() == 0,
            r.action_items@.len() == 0,
            r.original_tokens == tokens_sum(names_view(messages@)),
            r.compressed_tokens == token_estimate(r.summary@),
    {
        let original_tokens = tokens_sum_exec(messages);
        let max = self.config.local_summary_chars;
        let mut lines: Vec<String> = Vec::new();
        let mut i: usize = 0;
        while i < messages.len()
            invariant
                i <= messages.len(),
                messages@.len() < u64::MAX,
                names_view(lines@) == summary_lines(names_view(messages@), max as nat).subrange(0, i as int),
            decreases messages.len() - i,
        {
            let line = summary_line_exec((i + 1) as u64, messages[i].as_str(), max);
            assert(names_view(messages@)[i as int] == messages@[i as int]@);
            assert(line@ == summary_lines(names_view(messages@), max as nat)[i as int]);
            proof { lemma_names_push(lines@, line); }
            lines.push(line);
            i = i + 1;
            assert(names_view(lines@) =~= summary_lines(names_view(messages@), max as nat).subrange(0, i as int));
        }
        assert(summary_lines(names_view(messages@), max as nat).subrange(0, messages.len() as int) =~= summary_lines(names_view(messages@), max as nat));
        let summary = join_strings(&lines, "\n");
        let compressed_tokens = estimate_tokens(summary.as_str());
        SummaryResult { summary, key_decisions: Vec::new(), action_items: Vec::new(), original_tokens, compressed_tokens }
    }

    /// Local compression, the one that runs without an LLM.
    pub fn compress_local(&self, messages: &[String]) -> (r: SummaryResult)
        requires
            tokens_sum(names_view(messages@)) <= u32::MAX,
            messages@.len() < u64::MAX,
        ensures
            r.summary@ == local_summary(names_view(messages@), self.config.local_summary_chars as nat),
            r.key_decisions@.len() == 0,
            r.action_items@.len() == 0,
            r.original_tokens == tokens_sum(names_view(messages@)),
            r.compressed_tokens == token_estimate(r.summary@),
    {
        self.summarize_local(messages)
    }

    /// Reads a structured summary produced by an LLM: `summary` (a string, else empty),
    /// `key_decisions` and `action_items` (their string elements).
    pub fn summary_from_json(&self, data: &Json, messages: &[String]) -> (r: SummaryResult)
        requires
            tokens_sum(names_view(messages@)) <= u32::MAX,
        ensures
            r.summary@ == (match data.get_spec("summary"@) {
                Some(v) => match v.str_spec() {
                    Some(s) => s,
                    None => Seq::<char>::empty(),
                },
                None => Seq::<char>::empty(),
            }),
            names_view(r.key_decisions@) == string_items(data.get_spec("key_decisions"@)),
            names_view(r.action_items@) == string_items(data.get_spec("action_items"@)),
            r.original_tokens == tokens_sum(names_view(messages@)),
            r.compressed_tokens == token_estimate(r.summary@),
    {
        proof {
            reveal_strlit("summary");
            reveal_strlit("key_decisions");
            reveal_strlit("action_items");
        }
        let summary = match data.get("summary") {
            Some(v) => match v.as_str() {
                Some(s) => owned(s),
                None => String::new(),
            },
            None => String::new(),
        };
        let key_decisions = string_items_exec(data.get("key_decisions"));
        let action_items = string_items_exec(data.get("action_items"));
        let original_tokens = tokens_sum_exec(messages);
        let compressed_tokens = estimate_tokens(summary.as_str());
        SummaryResult { summary, key_decisions, action_items, original_tokens, compressed_tokens }
    }

    /// Per-message summaries for up to three messages, a batch above that.
    pub fn strategy(&self, messages: &[String]) -> (s: CompressionStrategy)
        ensures
            s == (if messages@.len() <= 3 {
                CompressionStrategy::PerMessage
            } else {
                CompressionStrategy::Batch
            }),
    {
        if messages.len() <= 3 {
            CompressionStrategy::PerMessage
        } else {
            CompressionStrategy::Batch
        }
    }
}

/// The instruction sent for an LLM summary: the request, a blank line, then the
/// messages separated by `---` lines.
pub open spec fn summary_prompt_text(messages: Seq<Seq<char>>) -> Seq<char> {
    "请将以下对话历史压缩为结构化摘要。只输出 JSON，不要包含其他文字。\n\n"@ + join_seq(messages, "\n---\n"@)
}

/// The instruction sent for an LLM summary of `messages`.
pub fn summary_prompt(messages: &Vec<String>) -> (s: String)
    ensures
        s@ == summary_prompt_text(names_view(messages@)),
{
    let joined = join_strings(messages, "\n---\n");
    concat2("请将以下对话历史压缩为结构化摘要。只输出 JSON，不要包含其他文字。\n\n", joined.as_str())
}

/// The JSON schema of an LLM summary: a `summary` string and `key_decisions` and
/// `action_items` string arrays, all required.
pub const SUMMARY_SCHEMA: &'static str = "{\"properties\":{\"action_items\":{\"description\":\"待办事项列表（如需要执行的构建、需要验证的结果等）\",\"items\":{\"type\":\"string\"},\"type\":\"array\"},\"key_decisions\":{\"description\":\"关键决策列表（如部署目标、配置变更等）\",\"items\":{\"type\":\"string\"},\"type\":\"array\"},\"summary\":{\"description\":\"对话的简洁摘要，包含主要讨论内容和结论\",\"type\":\"string\"}},\"required\":[\"summary\",\"key_decisions\",\"action_items\"],\"type\":\"object\"}";

/// The system text of an LLM summary request.
pub const SUMMARY_SYSTEM: &'static str = "你是一个专业的对话摘要助手。你的任务是将对话压缩为简洁的结构化摘要。";

/// The request for an LLM summary of `messages`: the system text and the instruction, the
/// `compression_summary` tool with the summary schema, forced, at temperature 0.5, for
/// the provider's default model.
pub fn summary_request(messages: &Vec<String>) -> (r: ChatRequest)
    ensures
        r.model@.len() == 0,
        r.messages@.len() == 2,
        r.messages@[0] matches Message::System { content } && blocks_view(content@) == seq![(SUMMARY_SYSTEM@, false)],
        r.messages@[1] matches Message::User { content } && content@ == summary_prompt_text(names_view(messages@)),
        r.tools matches Some(t) && t@.len() == 1 && t@[0].definition.name@ == "compression_summary"@
            && t@[0].definition.description@ == "输出压缩后的结构化摘要"@ && t@[0].definition.parameters@ == SUMMARY_SCHEMA@
            && !t@[0].cache_breakpoint,
        r.temperature matches Some(JsonNumber::Float(x)) && x@ == "0.5"@,
        r.tool_choice matches Some(ToolChoice::Tool { name }) && name@ == "compression_summary"@,
        r.stop_sequences is None,
        r.prefill is None,
{
    let tool = CachedTool {
        definition: ToolDefinition {
            name: owned("compression_summary"),
            description: owned("输出压缩后的结构化摘要"),
            parameters: owned(SUMMARY_SCHEMA),
        },
        cache_breakpoint: false,
    };
    ChatRequest {
        model: String::new(),
        messages: vec![system_text(SUMMARY_SYSTEM), Message::User { content: summary_prompt(messages) }],
        tools: Some(vec![tool]),
        temperature: Some(JsonNumber::Float(owned("0.5"))),
        tool_choice: Some(ToolChoice::Tool { name: owned("compression_summary") }),
        stop_sequences: None,
        prefill: None,
    }
}

/// The JSON text an LLM summary is read from: the arguments of the first tool call, else
/// the response text.
pub fn summary_source(response: &crate::llm::ChatResponse) -> (s: &str)
    ensures
        s@ == (if response.tool_calls@.len() > 0 {
            response.tool_calls@[0].arguments@
        } else {
            response.content@
        }),
{
    if response.tool_calls.len() > 0 {
        response.tool_calls[0].arguments.as_str()
    } else {
        response.content.as_str()
    }
}

} // verus!
