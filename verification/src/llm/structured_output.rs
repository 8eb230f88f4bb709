//! Structured output: the repair of model text into a JSON candidate (code fences
//! stripped, trailing commas and single quotes fixed, the outermost braces found) and the
//! choice of the text to parse for each output mode.
use vstd::prelude::*;
use super::{block_texts, flat_text, llm_error_text, system_text, ChatRequest, ChatResponse, LlmError, Message, ToolChoice};
use super::prompt_builder::CachedTool;
use super::tool_use_loop::tool_registry::ToolDefinition;
use super::tool_use_loop::ToolCall;
use crate::json::{json_error_of, json_error_text, json_text, to_json_text, Json, JsonNumber};
use crate::text::{
    byte_prefix, byte_prefix_string, chars_of, cut_ok, debug_list, debug_list_text, decimal_seq, decimal_string, first_index_of,
    names_view, owned, replace_all, replace_seq, slice_chars, string_of, take_chars, trim_chars,
    trim_seq, lemma_names_push, str_eq, concat2, starts_with_seq, str_starts_with,
};

verus! {

/// How structured output is asked for.
#[derive(PartialEq, Eq, Structural, Clone, Copy, Debug)]
pub enum StructuredOutputMode {
    /// A tool whose arguments are the output, with the tool call forced.
    ToolUse,
    /// A prompt with the schema, a prefilled `{` and stop sequences.
    EnhancedPrompt,
}

impl Default for StructuredOutputMode {
    fn default() -> (m: StructuredOutputMode)
        ensures
            m == StructuredOutputMode::ToolUse,
    {
        StructuredOutputMode::ToolUse
    }
}

/// Failures of structured output.
#[derive(Debug)]
pub enum StructuredOutputError {
    /// The LLM call failed.
    LlmError(LlmError),
    /// The response could not be read.
    ParseError { response: String, detail: String },
    /// Every attempt failed; the texts that were tried.
    MaxRetriesExceeded { responses: Vec<String> },
}

/// The first 50 bytes of each response.
pub open spec fn response_previews(responses: Seq<String>) -> Seq<Seq<char>> {
    responses.map_values(|r: String| byte_prefix(r@, 50))
}

/// The text of a structured-output failure.
pub open spec fn structured_error_text(e: StructuredOutputError) -> Seq<char> {
    match e {
        StructuredOutputError::LlmError(x) => "LLM error: "@ + llm_error_text(x),
        StructuredOutputError::ParseError { response, detail } => "Parse error: "@ + detail@ + " (response: "@ + response@ + ")"@,
        StructuredOutputError::MaxRetriesExceeded { responses } => "Max retries exceeded after "@ + decimal_seq(
            responses@.len(),
        ) + " attempts: "@ + debug_list_text(response_previews(responses@)),
    }
}

/// The responses of a failure can be cut after 50 bytes without splitting a character.
pub open spec fn previews_cut_ok(e: StructuredOutputError) -> bool {
    e matches StructuredOutputError::MaxRetriesExceeded { responses } ==> forall|i: int|
        0 <= i < responses@.len() ==> cut_ok(#[trigger] responses@[i]@, 50)
}

impl StructuredOutputError {
    /// The text of the failure; the responses of `MaxRetriesExceeded` are shown by their
    /// first 50 bytes.
    pub fn to_string(&self) -> (s: String)
        requires
            previews_cut_ok(*self),
        ensures
            s@ == structured_error_text(*self),
    {
        match self {
            StructuredOutputError::LlmError(e) => concat2("LLM error: ", e.to_string().as_str()),
            StructuredOutputError::ParseError { response, detail } => {
                let mut s = concat2("Parse error: ", detail.as_str());
                s.append(" (response: ");
                s.append(response.as_str());
                s.append(")");
                s
            },
            StructuredOutputError::MaxRetriesExceeded { responses } => {
                let mut previews: Vec<String> = Vec::new();
                let mut i: usize = 0;
                while i < responses.len()
                    invariant
                        i <= responses.len(),
                        forall|k: int| 0 <= k < responses@.len() ==> cut_ok(#[trigger] responses@[k]@, 50),
                        names_view(previews@) =~= response_previews(responses@.subrange(0, i as int)),
                    decreases responses.len() - i,
                {
                    let p = byte_prefix_string(responses[i].as_str(), 50);
                    proof { lemma_names_push(previews@, p); }
                    previews.push(p);
                    i = i + 1;
                    assert(names_view(previews@) =~= response_previews(responses@.subrange(0, i as int)));
                }
                assert(responses@.subrange(0, responses.len() as int) =~= responses@);
                let mut s = concat2("Max retries exceeded after ", decimal_string(responses.len() as u64).as_str());
                s.append(" attempts: ");
                s.append(debug_list(&previews).as_str());
                s
            },
        }
    }
}

/// `text` without Markdown code fences, trimmed.
pub open spec fn stripped(text: Seq<char>) -> Seq<char> {
    let a = replace_seq(text, "```json\n"@, Seq::empty());
    let b = replace_seq(a, "```json"@, Seq::empty());
    let c = replace_seq(b, "```\n"@, Seq::empty());
    let d = replace_seq(c, "```"@, Seq::empty());
    trim_seq(d)
}

/// `text` with trailing commas before `}` and `]` removed and single quotes turned into
/// double quotes.
pub open spec fn fixed(text: Seq<char>) -> Seq<char> {
    let a = replace_seq(text, ", }"@, "}"@);
    let b = replace_seq(a, ",\t}"@, "}"@);
    let c = replace_seq(b, ",}"@, "}"@);
    let d = replace_seq(c, ", ]"@, "]"@);
    let e = replace_seq(d, ",\t]"@, "]"@);
    let f = replace_seq(e, ",]"@, "]"@);
    replace_seq(f, "'"@, "\""@)
}

/// Scans `s` from `i` for the `}` that closes the brace nesting, strings (with their
/// escapes) being skipped; the index just after it.
pub open spec fn brace_end(s: Seq<char>, i: int, depth: int, in_string: bool, escaped: bool) -> Option<int>
    decreases s.len() - i,
{
    if i < 0 || i >= s.len() {
        None
    } else {
        let c = s[i];
        if in_string {
            if escaped {
                brace_end(s, i + 1, depth, true, false)
            } else if c == '\\' {
                brace_end(s, i + 1, depth, true, true)
            } else if c == '"' {
                brace_end(s, i + 1, depth, false, false)
            } else {
                brace_end(s, i + 1, depth, true, false)
            }
        } else if c == '"' {
            brace_end(s, i + 1, depth, true, false)
        } else if c == '{' {
            brace_end(s, i + 1, depth + 1, false, false)
        } else if c == '}' {
            if depth - 1 == 0 {
                Some(i + 1)
            } else {
                brace_end(s, i + 1, depth - 1, false, false)
            }
        } else {
            brace_end(s, i + 1, depth, false, false)
        }
    }
}

/// The outermost `{ ... }` of `content`: from its first `{` to the brace that closes it.
pub open spec fn braces_of(content: Seq<char>) -> Option<Seq<char>> {
    let start = first_index_of(content, '{');
    if start < 0 {
        None
    } else {
        match brace_end(content, start, 0, false, false) {
            Some(end) => Some(content.subrange(start, end)),
            None => None,
        }
    }
}

/// `text` without Markdown code fences, trimmed.
pub fn strip_codeblocks(text: &str) -> (r: String)
    ensures
        r@ == stripped(text@),
{
    proof {
        reveal_strlit("```json\n");
        reveal_strlit("```json");
        reveal_strlit("```\n");
        reveal_strlit("```");
        reveal_strlit("");
        assert(""@ =~= Seq::<char>::empty());
    }
    let a = replace_all(text, "```json\n", "");
    let b = replace_all(a.as_str(), "```json", "");
    let c = replace_all(b.as_str(), "```\n", "");
    let d = replace_all(c.as_str(), "```", "");
    let dv = chars_of(d.as_str());
    let t = trim_chars(&dv);
    string_of(t.as_slice())
}

/// `text` with common JSON mistakes fixed: trailing commas before `}` or `]`, single
/// quotes.
pub fn fix_common_errors(text: &str) -> (r: String)
    ensures
        r@ == fixed(text@),
{
    proof {
        reveal_strlit(", }");
        reveal_strlit(",\t}");
        reveal_strlit(",}");
        reveal_strlit(", ]");
        reveal_strlit(",\t]");
        reveal_strlit(",]");
        reveal_strlit("'");
    }
    let a = replace_all(text, ", }", "}");
    let b = replace_all(a.as_str(), ",\t}", "}");
    let c = replace_all(b.as_str(), ",}", "}");
    let d = replace_all(c.as_str(), ", ]", "]");
    let e = replace_all(d.as_str(), ",\t]", "]");
    let f = replace_all(e.as_str(), ",]", "]");
    replace_all(f.as_str(), "'", "\"")
}

/// Index of the first `c` in `s`, if any.
fn find_char(s: &Vec<char>, c: char) -> (r: Option<usize>)
    ensures
        match r {
            Some(i) => i as int == first_index_of(s@, c) && i < s.len() && s@[i as int] == c,
            None => first_index_of(s@, c) == -1,
        },
{
    let mut i: usize = 0;
    assert(s@.subrange(0, s@.len() as int) =~= s@);
    while i < s.len()
        invariant
            i <= s.len(),
            first_index_of(s@, c) == (if first_index_of(s@.subrange(i as int, s@.len() as int), c) < 0 {
                -1
            } else {
                first_index_of(s@.subrange(i as int, s@.len() as int), c) + i
            }),
            forall|j: int| 0 <= j < i ==> s@[j] != c,
        decreases s.len() - i,
    {
        let ghost rest = s@.subrange(i as int, s@.len() as int);
        assert(rest[0] == s@[i as int]);
        if s[i] == c {
            return Some(i);
        }
        assert(rest.drop_first() =~= s@.subrange(i + 1, s@.len() as int));
        i = i + 1;
    }
    assert(s@.subrange(i as int, s@.len() as int) =~= Seq::<char>::empty());
    None
}

/// The outermost `{ ... }` of `content`, strings skipped when matching braces.
pub fn extract_braces(content: &str) -> (r: Option<String>)
    ensures
        match r {
            Some(x) => braces_of(content@) == Some(x@),
            None => braces_of(content@) is None,
        },
{
    let cv = chars_of(content);
    let start = match find_char(&cv, '{') {
        Some(s) => s,
        None => {
            return None;
        },
    };
    let mut i: usize = start;
    let mut depth: u64 = 0;
    let mut in_string = false;
    let mut escaped = false;
    while i < cv.len()
        invariant
            start <= i <= cv.len(),
            start < cv.len(),
            cv@ == content@,
            cv@[start as int] == '{',
            first_index_of(content@, '{') == start,
            depth <= i - start,
            i == start ==> (depth == 0 && !in_string && !escaped),
            i > start ==> depth >= 1,
            !in_string ==> !escaped,
            brace_end(cv@, start as int, 0, false, false) == brace_end(cv@, i as int, depth as int, in_string, escaped),
        decreases cv.len() - i,
    {
        let c = cv[i];
        let ghost d0 = depth as int;
        let ghost s0 = in_string;
        let ghost e0 = escaped;
        if in_string {
            if escaped {
                escaped = false;
            } else if c == '\\' {
                escaped = true;
            } else if c == '"' {
                in_string = false;
            }
        } else if c == '"' {
            in_string = true;
        } else if c == '{' {
            depth = depth + 1;
        } else if c == '}' {
            if depth == 1 {
                let slice = slice_chars(&cv, start, i + 1);
                return Some(string_of(slice.as_slice()));
            }
            depth = depth - 1;
        }
        assert(brace_end(cv@, i as int, d0, s0, e0) == brace_end(cv@, i + 1, depth as int, in_string, escaped));
        i = i + 1;
    }
    None
}

/// The arguments text of the first tool call named `tool_name`.
pub open spec fn tool_output(calls: Seq<ToolCall>, tool_name: Seq<char>) -> Option<Seq<char>>
    decreases calls.len(),
{
    if calls.len() == 0 {
        None
    } else if calls[0].name@ == tool_name {
        Some(calls[0].arguments@)
    } else {
        tool_output(calls.drop_first(), tool_name)
    }
}

/// The arguments of the first tool call named `tool_name`.
pub fn extract_from_tool_use(calls: &Vec<ToolCall>, tool_name: &str) -> (r: Option<String>)
    ensures
        match r {
            Some(x) => tool_output(calls@, tool_name@) == Some(x@),
            None => tool_output(calls@, tool_name@) is None,
        },
{
    let mut i: usize = 0;
    assert(calls@.subrange(0, calls@.len() as int) =~= calls@);
    while i < calls.len()
        invariant
            i <= calls.len(),
            tool_output(calls@, tool_name@) == tool_output(calls@.subrange(i as int, calls@.len() as int), tool_name@),
        decreases calls.len() - i,
    {
        let ghost rest = calls@.subrange(i as int, calls@.len() as int);
        assert(rest[0] == calls@[i as int]);
        if str_eq(calls[i].name.as_str(), tool_name) {
            return Some(owned(calls[i].arguments.as_str()));
        }
        assert(rest.drop_first() =~= calls@.subrange(i + 1, calls@.len() as int));
        i = i + 1;
    }
    assert(calls@.subrange(i as int, calls@.len() as int) =~= Seq::<ToolCall>::empty());
    None
}

/// The text to parse in the enhanced-prompt mode: the trimmed response, with the
/// prefilled `{` put back on the first attempt when the response does not start with one.
pub open spec fn prompt_output(content: Seq<char>, attempt: u32) -> Seq<char> {
    let t = trim_seq(content);
    if !starts_with_seq(t, "{"@) && attempt == 0 {
        "{"@ + t
    } else {
        t
    }
}

/// The text to parse from an enhanced-prompt response.
pub fn enhanced_prompt_output(content: &str, attempt: u32) -> (r: String)
    ensures
        r@ == prompt_output(content@, attempt),
{
    let cv = chars_of(content);
    let t = string_of(trim_chars(&cv).as_slice());
    if !str_starts_with(t.as_str(), "{") && attempt == 0 {
        concat2("{", t.as_str())
    } else {
        t
    }
}

/// The texts tried in turn to parse a structured answer: the trimmed text, the text
/// without code fences, its outermost braces, and the outermost braces of its fixed form.
pub open spec fn parse_candidates(text: Seq<char>) -> Seq<Seq<char>> {
    let t = trim_seq(text);
    let s = stripped(t);
    let b: Seq<Seq<char>> = match braces_of(s) {
        Some(x) => seq![x],
        None => Seq::empty(),
    };
    let f: Seq<Seq<char>> = match braces_of(fixed(s)) {
        Some(x) => seq![x],
        None => Seq::empty(),
    };
    seq![t, s] + b + f
}

/// The candidate texts for parsing `text`, in the order they are tried, and the fixed text
/// tried last as a whole document.
pub fn robust_parse_candidates(text: &str) -> (r: (Vec<String>, String))
    ensures
        names_view(r.0@) == parse_candidates(text@),
        r.1@ == fixed(stripped(trim_seq(text@))),
{
    let cv = chars_of(text);
    let trimmed = string_of(trim_chars(&cv).as_slice());
    let s = strip_codeblocks(trimmed.as_str());
    let f = fix_common_errors(s.as_str());
    let mut out: Vec<String> = Vec::new();
    let t2 = owned(trimmed.as_str());
    proof { lemma_names_push(out@, t2); }
    out.push(t2);
    let s2 = owned(s.as_str());
    proof { lemma_names_push(out@, s2); }
    out.push(s2);
    match extract_braces(s.as_str()) {
        Some(b) => {
            proof { lemma_names_push(out@, b); }
            out.push(b);
        },
        None => {},
    }
    match extract_braces(f.as_str()) {
        Some(b) => {
            proof { lemma_names_push(out@, b); }
            out.push(b);
        },
        None => {},
    }
    assert(names_view(out@) =~= parse_candidates(text@));
    (out, f)
}


/// The first `n` characters of `s`.
fn take_string(s: &str, n: usize) -> (r: String)
    ensures
        r@ == take_chars(s@, n as nat),
{
    let cv = chars_of(s);
    if cv.len() <= n {
        string_of(cv.as_slice())
    } else {
        string_of(slice_chars(&cv, 0, n).as_slice())
    }
}

/// The message when no candidate text parses: the first 120 characters of the trimmed
/// text.
pub fn parse_failure_message(text: &str) -> (r: String)
    ensures
        r@ == "Failed to parse JSON (preview: "@ + take_chars(trim_seq(text@), 120) + ")"@,
{
    let cv = chars_of(text);
    let t = string_of(trim_chars(&cv).as_slice());
    let mut r = concat2("Failed to parse JSON (preview: ", take_string(t.as_str(), 120).as_str());
    r.append(")");
    r
}

/// The message when the fixed text is JSON of another shape: the deserializer's error and
/// the first 100 characters of the value's text.
pub fn type_mismatch_message(error: &str, value_text: &str) -> (r: String)
    ensures
        r@ == "JSON valid but type mismatch: "@ + error@ + " (value: "@ + take_chars(value_text@, 100) + ")"@,
{
    let mut r = concat2("JSON valid but type mismatch: ", error);
    r.append(" (value: ");
    r.append(take_string(value_text, 100).as_str());
    r.append(")");
    r
}

/// A message as (role, text) when it is a system or user message or an assistant message
/// without tool calls.
pub open spec fn plain_message(m: Message) -> Option<(Seq<char>, Seq<char>)> {
    match m {
        Message::System { content } => Some(("system"@, flat_text(content@))),
        Message::User { content } => Some(("user"@, content@)),
        Message::Assistant { content, tool_calls } => if tool_calls@.len() == 0 {
            Some(("assistant"@, content@))
        } else {
            None
        },
        Message::Tool { .. } => None,
    }
}

/// Messages as (role, text) pairs.
pub open spec fn plain_messages(ms: Seq<Message>) -> Seq<Option<(Seq<char>, Seq<char>)>> {
    ms.map_values(|m: Message| plain_message(m))
}

/// Why the last output was refused: not JSON at all (with the parser's message), or not
/// of the expected shape.
pub open spec fn retry_hint(last: Seq<char>) -> Seq<char> {
    match json_error_of(last) {
        None => "上一次输出格式不符合预期 schema"@,
        Some(e) => "上一次输出不是有效的 JSON: "@ + e,
    }
}

/// The dialogue of an attempt: the system text and the first user message; on a retry,
/// the user prompt, the last failed output as the assistant's answer, and a user message
/// with the reason and `ask`.
pub open spec fn dialogue(
    system: Seq<char>,
    first: Seq<char>,
    user_prompt: Seq<char>,
    failed: Seq<String>,
    attempt: u32,
    ask: Seq<char>,
) -> Seq<Option<(Seq<char>, Seq<char>)>> {
    if attempt > 0 {
        let last = failed.last()@;
        seq![
            Some(("system"@, system)),
            Some(("user"@, user_prompt)),
            Some(("assistant"@, last)),
            Some(("user"@, "你的上一次输出不符合 JSON Schema。错误: "@ + retry_hint(last) + ask)),
        ]
    } else {
        seq![Some(("system"@, system)), Some(("user"@, first))]
    }
}

/// The request text that closes a retry in the tool-use mode.
pub open spec fn tool_use_ask() -> Seq<char> {
    "。\n请重新调用工具输出正确的 JSON。"@
}

/// The request text that closes a retry in the enhanced-prompt mode.
pub open spec fn enhanced_ask() -> Seq<char> {
    "。\n请直接输出 JSON，以 { 开头。"@
}

/// The first user message of the enhanced-prompt mode.
pub open spec fn enhanced_input(user_prompt: Seq<char>) -> Seq<char> {
    "<input>\n"@ + user_prompt + "\n</input>\n\n直接输出 JSON，以 { 开头。"@
}

/// The messages of an attempt.
fn dialogue_messages(system: String, first: String, user_prompt: &str, failed: &Vec<String>, attempt: u32, ask: &str) -> (v: Vec<Message>)
    requires
        attempt > 0 ==> failed@.len() > 0,
    ensures
        plain_messages(v@) == dialogue(system@, first@, user_prompt@, failed@, attempt, ask@),
{
    let mut v: Vec<Message> = Vec::new();
    let ghost sys = system@;
    let sm = system_text(system.as_str());
    proof {
        assert(plain_message(sm) == Some(("system"@, sys)));
    }
    v.push(sm);
    if attempt > 0 {
        let last = &failed[failed.len() - 1];
        let hint = match json_error_text(last.as_str()) {
            None => owned("上一次输出格式不符合预期 schema"),
            Some(e) => concat2("上一次输出不是有效的 JSON: ", e.as_str()),
        };
        assert(hint@ == retry_hint(last@));
        let mut t = concat2("你的上一次输出不符合 JSON Schema。错误: ", hint.as_str());
        t.append(ask);
        v.push(Message::User { content: owned(user_prompt) });
        v.push(Message::Assistant { content: owned(last.as_str()), tool_calls: Vec::new() });
        v.push(Message::User { content: t });
        assert(plain_messages(v@) =~= dialogue(sys, first@, user_prompt@, failed@, attempt, ask@));
    } else {
        let ghost f = first@;
        v.push(Message::User { content: first });
        assert(plain_messages(v@) =~= dialogue(sys, f, user_prompt@, failed@, attempt, ask@));
    }
    v
}

/// Structured output: a JSON schema, how to ask the model for data that follows it, and
/// how many attempts to make.
pub struct StructuredOutput {
    model: String,
    schema: Json,
    max_retries: u32,
    tool_name: String,
    tool_description: String,
    mode: StructuredOutputMode,
    system_prompt: Option<String>,
}

impl StructuredOutput {
    /// The model asked.
    pub closed spec fn model_name(&self) -> Seq<char> {
        self.model@
    }

    /// The compact JSON text of the schema.
    pub closed spec fn schema_text(&self) -> Seq<char> {
        json_text(self.schema)
    }

    /// The number of attempts.
    pub closed spec fn retries(&self) -> u32 {
        self.max_retries
    }

    /// The name of the output tool.
    pub closed spec fn tool(&self) -> Seq<char> {
        self.tool_name@
    }

    /// The description of the output tool.
    pub closed spec fn description(&self) -> Seq<char> {
        self.tool_description@
    }

    /// The output mode.
    pub closed spec fn output_mode(&self) -> StructuredOutputMode {
        self.mode
    }

    /// The system prompt set by the caller, if any.
    pub closed spec fn custom_system(&self) -> Option<Seq<char>> {
        match self.system_prompt {
            Some(p) => Some(p@),
            None => None,
        }
    }

    /// The system text of the tool-use mode: the caller's, or one that asks for the tool
    /// and gives the schema.
    pub open spec fn tool_use_system(&self) -> Seq<char> {
        match self.custom_system() {
            Some(p) => p,
            None => "你是一个结构化数据抽取助手。使用工具来输出严格遵循 JSON Schema 的结构化数据。\n\nSchema:\n"@ + self.schema_text(),
        }
    }

    /// The system text of the enhanced-prompt mode: the caller's, or one that gives the
    /// schema as the output format.
    pub open spec fn enhanced_system(&self) -> Seq<char> {
        match self.custom_system() {
            Some(p) => p,
            None => "你是一个结构化数据抽取助手。严格按照指定 JSON schema 输出，\n不要添加任何解释文字，不要用 markdown 代码块包裹。\n\n<output_format>\n"@
                + self.schema_text() + "\n</output_format>"@,
        }
    }

    /// `r` is the tool-use request of attempt `attempt`: the dialogue, the schema as the
    /// single tool (no cache breakpoint), that tool forced, temperature 0.0.
    pub open spec fn is_tool_use_request(&self, r: ChatRequest, user_prompt: Seq<char>, failed: Seq<String>, attempt: u32) -> bool {
        &&& r.model@ == self.model_name()
        &&& plain_messages(r.messages@) == dialogue(self.tool_use_system(), user_prompt, user_prompt, failed, attempt, tool_use_ask())
        &&& r.tools matches Some(t) && t@.len() == 1 && t@[0].definition.name@ == self.tool()
            && t@[0].definition.description@ == self.description() && t@[0].definition.parameters@ == self.schema_text()
            && !t@[0].cache_breakpoint
        &&& r.temperature matches Some(JsonNumber::Float(x)) && x@ == "0.0"@
        &&& r.tool_choice matches Some(ToolChoice::Tool { name }) && name@ == self.tool()
        &&& r.stop_sequences is None
        &&& r.prefill is None
    }

    /// `r` is the enhanced-prompt request of attempt `attempt`: the dialogue, no tools,
    /// temperature 0.0, stop sequences `\n\n\n` and a closing code fence, prefill `{}`.
    pub open spec fn is_enhanced_request(&self, r: ChatRequest, user_prompt: Seq<char>, failed: Seq<String>, attempt: u32) -> bool {
        &&& r.model@ == self.model_name()
        &&& plain_messages(r.messages@) == dialogue(
            self.enhanced_system(),
            enhanced_input(user_prompt),
            user_prompt,
            failed,
            attempt,
            enhanced_ask(),
        )
        &&& r.tools is None
        &&& r.temperature matches Some(JsonNumber::Float(x)) && x@ == "0.0"@
        &&& r.tool_choice is None
        &&& r.stop_sequences matches Some(st) && names_view(st@) == seq!["\n\n\n"@, "```\n"@]
        &&& r.prefill matches Some(p) && p@ == "{}"@
    }

    /// Structured output from `model` with an empty schema, three attempts, the tool
    /// `extract_result` and the tool-use mode.
    pub fn new(model: String) -> (s: StructuredOutput)
        ensures
            s.model_name() == model@,
            s.schema_text() == "{}"@,
            s.retries() == 3,
            s.tool() == "extract_result"@,
            s.description() == "抽取结构化数据"@,
            s.output_mode() == StructuredOutputMode::ToolUse,
            s.custom_system() is None,
    {
        proof {
            reveal_strlit("{}");
            assert(crate::json::members_text(Seq::<(String, Json)>::empty()) =~= Seq::<char>::empty());
        }
        StructuredOutput {
            model,
            schema: Json::Object(Vec::new()),
            max_retries: 3,
            tool_name: owned("extract_result"),
            tool_description: owned("抽取结构化数据"),
            mode: StructuredOutputMode::ToolUse,
            system_prompt: None,
        }
    }

    /// With the given schema.
    pub fn schema(self, schema: Json) -> (s: StructuredOutput)
        ensures
            s.schema_text() == json_text(schema),
            s.model_name() == self.model_name(),
            s.retries() == self.retries(),
            s.tool() == self.tool(),
            s.description() == self.description(),
            s.output_mode() == self.output_mode(),
            s.custom_system() == self.custom_system(),
    {
        let mut s = self;
        s.schema = schema;
        s
    }

    /// With the given tool name.
    pub fn tool_name(self, name: &str) -> (s: StructuredOutput)
        ensures
            s.tool() == name@,
            s.schema_text() == self.schema_text(),
            s.model_name() == self.model_name(),
            s.retries() == self.retries(),
            s.description() == self.description(),
            s.output_mode() == self.output_mode(),
            s.custom_system() == self.custom_system(),
    {
        let mut s = self;
        s.tool_name = owned(name);
        s
    }

    /// With the given tool description.
    pub fn tool_description(self, desc: &str) -> (s: StructuredOutput)
        ensures
            s.description() == desc@,
            s.schema_text() == self.schema_text(),
            s.model_name() == self.model_name(),
            s.retries() == self.retries(),
            s.tool() == self.tool(),
            s.output_mode() == self.output_mode(),
            s.custom_system() == self.custom_system(),
    {
        let mut s = self;
        s.tool_description = owned(desc);
        s
    }

    /// With the given output mode.
    pub fn mode(self, mode: StructuredOutputMode) -> (s: StructuredOutput)
        ensures
            s.output_mode() == mode,
            s.schema_text() == self.schema_text(),
            s.model_name() == self.model_name(),
            s.retries() == self.retries(),
            s.tool() == self.tool(),
            s.description() == self.description(),
            s.custom_system() == self.custom_system(),
    {
        let mut s = self;
        s.mode = mode;
        s
    }

    /// With the given system prompt in place of the generated one.
    pub fn with_system_prompt(self, prompt: String) -> (s: StructuredOutput)
        ensures
            s.custom_system() == Some(prompt@),
            s.schema_text() == self.schema_text(),
            s.model_name() == self.model_name(),
            s.retries() == self.retries(),
            s.tool() == self.tool(),
            s.description() == self.description(),
            s.output_mode() == self.output_mode(),
    {
        let mut s = self;
        s.system_prompt = Some(prompt);
        s
    }

    /// With the given number of attempts.
    pub fn with_max_retries(self, retries: u32) -> (s: StructuredOutput)
        ensures
            s.retries() == retries,
            s.schema_text() == self.schema_text(),
            s.model_name() == self.model_name(),
            s.tool() == self.tool(),
            s.description() == self.description(),
            s.output_mode() == self.output_mode(),
            s.custom_system() == self.custom_system(),
    {
        let mut s = self;
        s.max_retries = retries;
        s
    }

    /// The request of attempt `attempt` in the tool-use mode; `failed_responses` holds the
    /// outputs refused so far (at least one on a retry).
    pub fn build_tool_use_request(&self, user_prompt: &str, failed_responses: &Vec<String>, attempt: u32) -> (r: ChatRequest)
        requires
            attempt > 0 ==> failed_responses@.len() > 0,
        ensures
            self.is_tool_use_request(r, user_prompt@, failed_responses@, attempt),
    {
        let schema_text = to_json_text(&self.schema);
        let system = match &self.system_prompt {
            Some(p) => owned(p.as_str()),
            None => concat2("你是一个结构化数据抽取助手。使用工具来输出严格遵循 JSON Schema 的结构化数据。\n\nSchema:\n", schema_text.as_str()),
        };
        let messages = dialogue_messages(system, owned(user_prompt), user_prompt, failed_responses, attempt, "。\n请重新调用工具输出正确的 JSON。");
        let tool = CachedTool {
            definition: ToolDefinition {
                name: owned(self.tool_name.as_str()),
                description: owned(self.tool_description.as_str()),
                parameters: schema_text,
            },
            cache_breakpoint: false,
        };
        ChatRequest {
            model: owned(self.model.as_str()),
            messages,
            tools: Some(vec![tool]),
            temperature: Some(JsonNumber::Float(owned("0.0"))),
            tool_choice: Some(ToolChoice::Tool { name: owned(self.tool_name.as_str()) }),
            stop_sequences: None,
            prefill: None,
        }
    }

    /// The request of attempt `attempt` in the enhanced-prompt mode; `failed_responses`
    /// holds the outputs refused so far (at least one on a retry).
    pub fn build_enhanced_prompt_request(&self, user_prompt: &str, failed_responses: &Vec<String>, attempt: u32) -> (r: ChatRequest)
        requires
            attempt > 0 ==> failed_responses@.len() > 0,
        ensures
            self.is_enhanced_request(r, user_prompt@, failed_responses@, attempt),
    {
        let schema_text = to_json_text(&self.schema);
        let system = match &self.system_prompt {
            Some(p) => owned(p.as_str()),
            None => {
                let mut t = concat2(
                    "你是一个结构化数据抽取助手。严格按照指定 JSON schema 输出，\n不要添加任何解释文字，不要用 markdown 代码块包裹。\n\n<output_format>\n",
                    schema_text.as_str(),
                );
                t.append("\n</output_format>");
                t
            },
        };
        let mut first = concat2("<input>\n", user_prompt);
        first.append("\n</input>\n\n直接输出 JSON，以 { 开头。");
        let messages = dialogue_messages(system, first, user_prompt, failed_responses, attempt, "。\n请直接输出 JSON，以 { 开头。");
        let stops = vec![owned("\n\n\n"), owned("```\n")];
        assert(names_view(stops@) =~= seq!["\n\n\n"@, "```\n"@]);
        ChatRequest {
            model: owned(self.model.as_str()),
            messages,
            tools: None,
            temperature: Some(JsonNumber::Float(owned("0.0"))),
            tool_choice: None,
            stop_sequences: Some(stops),
            prefill: Some(owned("{}")),
        }
    }

    /// The request of attempt `attempt` in the output mode.
    pub fn request_for_attempt(&self, user_prompt: &str, failed_responses: &Vec<String>, attempt: u32) -> (r: ChatRequest)
        requires
            attempt > 0 ==> failed_responses@.len() > 0,
        ensures
            match self.output_mode() {
                StructuredOutputMode::ToolUse => self.is_tool_use_request(r, user_prompt@, failed_responses@, attempt),
                StructuredOutputMode::EnhancedPrompt => self.is_enhanced_request(r, user_prompt@, failed_responses@, attempt),
            },
    {
        match self.mode {
            StructuredOutputMode::ToolUse => self.build_tool_use_request(user_prompt, failed_responses, attempt),
            StructuredOutputMode::EnhancedPrompt => self.build_enhanced_prompt_request(user_prompt, failed_responses, attempt),
        }
    }

    /// The text to parse from a response: in the tool-use mode the arguments of the first
    /// call of the output tool, or a parse error with the first 200 bytes of the response
    /// text when there is none; in the enhanced-prompt mode the trimmed text with the
    /// prefilled `{` put back on the first attempt.
    pub fn extract_json_text(&self, response: &ChatResponse, attempt: u32) -> (r: Result<String, StructuredOutputError>)
        requires
            self.output_mode() == StructuredOutputMode::ToolUse && tool_output(response.tool_calls@, self.tool()) is None
                ==> cut_ok(response.content@, 200),
        ensures
            match self.output_mode() {
                StructuredOutputMode::ToolUse => match tool_output(response.tool_calls@, self.tool()) {
                    Some(a) => r matches Ok(x) && x@ == a,
                    None => r matches Err(StructuredOutputError::ParseError { response: p, detail })
                        && p@ == byte_prefix(response.content@, 200) && detail@ == "No tool call found in response"@,
                },
                StructuredOutputMode::EnhancedPrompt => r matches Ok(x) && x@ == prompt_output(response.content@, attempt),
            },
    {
        match self.mode {
            StructuredOutputMode::ToolUse => match extract_from_tool_use(&response.tool_calls, self.tool_name.as_str()) {
                Some(a) => Ok(a),
                None => Err(
                    StructuredOutputError::ParseError {
                        response: byte_prefix_string(response.content.as_str(), 200),
                        detail: owned("No tool call found in response"),
                    },
                ),
            },
            StructuredOutputMode::EnhancedPrompt => Ok(enhanced_prompt_output(response.content.as_str(), attempt)),
        }
    }

    /// The number of attempts.
    pub fn max_retries(&self) -> (n: u32)
        ensures
            n == self.retries(),
    {
        self.max_retries
    }

    /// The name of the output tool.
    pub fn output_tool(&self) -> (t: &str)
        ensures
            t@ == self.tool(),
    {
        self.tool_name.as_str()
    }

    /// The output mode.
    pub fn output(&self) -> (m: StructuredOutputMode)
        ensures
            m == self.output_mode(),
    {
        self.mode
    }
}


/// No character of `s` is `x`.
pub open spec fn lacks(s: Seq<char>, x: char) -> bool {
    forall|i: int| 0 <= i < s.len() ==> s[i] != x
}

proof fn lemma_replace_absent(s: Seq<char>, p: Seq<char>, r: Seq<char>)
    requires
        p.len() > 0,
        lacks(s, p[0]),
    ensures
        replace_seq(s, p, r) == s,
    decreases s.len(),
{
    if s.len() >= p.len() {
        assert(s.subrange(0, p.len() as int)[0] != p[0]);
        let rest = s.subrange(1, s.len() as int);
        lemma_replace_absent(rest, p, r);
        assert(seq![s[0]] + rest =~= s);
    }
}

proof fn lemma_replace_after_free(x: Seq<char>, y: Seq<char>, p: Seq<char>, r: Seq<char>)
    requires
        p.len() > 0,
        lacks(x, p[0]),
    ensures
        replace_seq(x + y, p, r) == x + replace_seq(y, p, r),
    decreases x.len(),
{
    if x.len() == 0 {
        assert(x + y =~= y);
    } else if (x + y).len() < p.len() {
        assert(replace_seq(y, p, r) == y);
    } else {
        assert((x + y).subrange(0, p.len() as int)[0] == x[0]);
        let x1 = x.subrange(1, x.len() as int);
        assert((x + y).subrange(1, (x + y).len() as int) =~= x1 + y);
        lemma_replace_after_free(x1, y, p, r);
        assert(seq![x[0]] + (x1 + replace_seq(y, p, r)) =~= x + replace_seq(y, p, r));
    }
}

proof fn lemma_replace_char(s: Seq<char>, a: char, b: char)
    ensures
        replace_seq(s, seq![a], seq![b]) == s.map_values(|ch: char| if ch == a { b } else { ch }),
    decreases s.len(),
{
    if s.len() > 0 {
        let rest = s.subrange(1, s.len() as int);
        lemma_replace_char(rest, a, b);
        assert(s.subrange(0, 1) =~= seq![s[0]]);
        if s[0] == a {
            assert(replace_seq(s, seq![a], seq![b]) =~= seq![b] + replace_seq(rest, seq![a], seq![b]));
        }
        assert(s.map_values(|ch: char| if ch == a { b } else { ch }) =~= seq![if s[0] == a { b } else { s[0] }]
            + rest.map_values(|ch: char| if ch == a { b } else { ch }));
    }
}

/// White space that may stand between a trailing comma and the closing bracket.
pub open spec fn comma_gap(w: Seq<char>) -> bool {
    w == Seq::<char>::empty() || w == seq![' '] || w == seq!['\t']
}

proof fn lemma_comma_step(
    x: Seq<char>,
    s: Seq<char>,
    w: Seq<char>,
    c: char,
    t: Seq<char>,
    w2: Seq<char>,
    c2: char,
)
    requires
        lacks(s, ','),
        lacks(t, ','),
        comma_gap(w),
        comma_gap(w2),
        c == '}' || c == ']',
        c2 == '}' || c2 == ']',
        x == s + seq![','] + w + seq![c] + t || x == s + seq![c] + t,
    ensures
        replace_seq(x, seq![','] + w2 + seq![c2], seq![c2]) == if x == s + seq![c] + t || (w == w2 && c == c2) {
            s + seq![c] + t
        } else {
            x
        },
{
    let p = seq![','] + w2 + seq![c2];
    let v = s + seq![c] + t;
    let u = s + seq![','] + w + seq![c] + t;
    let rest = seq![','] + w + seq![c] + t;
    assert(p[0] == ',');
    assert(lacks(v, ',')) by {
        assert forall|i: int| 0 <= i < v.len() implies v[i] != ',' by {
            if i < s.len() {
                assert(v[i] == s[i]);
            } else if i > s.len() {
                assert(v[i] == t[i - s.len() - 1]);
            }
        }
    }
    if x == v {
        lemma_replace_absent(v, p, seq![c2]);
    } else {
        assert(x =~= s + rest);
        lemma_replace_after_free(s, rest, p, seq![c2]);
        let tail = w + seq![c] + t;
        assert(lacks(tail, ',')) by {
            assert forall|i: int| 0 <= i < tail.len() implies tail[i] != ',' by {
                if i < w.len() {
                    assert(tail[i] == w[i]);
                } else if i > w.len() {
                    assert(tail[i] == t[i - w.len() - 1]);
                }
            }
        }
        if w == w2 && c == c2 {
            assert(rest.subrange(0, p.len() as int) =~= p);
            assert(rest.subrange(p.len() as int, rest.len() as int) =~= t);
            lemma_replace_absent(t, p, seq![c2]);
            assert(seq![c2] + t =~= seq![c] + t);
            assert(s + (seq![c] + t) =~= v);
        } else {
            lemma_replace_absent(tail, p, seq![c2]);
            if rest.len() >= p.len() {
                if w == w2 {
                    let k = w.len() as int + 1;
                    assert(rest[k] == c);
                    assert(p[k] == c2);
                    assert(rest.subrange(0, p.len() as int)[k] != p[k]);
                } else {
                    assert(rest[1] == (if w.len() > 0 { w[0] } else { c }));
                    assert(p[1] == (if w2.len() > 0 { w2[0] } else { c2 }));
                    assert(rest[1] != p[1]);
                    assert(rest.subrange(0, p.len() as int)[1] != p[1]);
                }
                assert(rest.subrange(1, rest.len() as int) =~= tail);
                assert(seq![','] + tail =~= rest);
            }
            assert(s + rest =~= x);
        }
    }
}

/// A trailing comma before a closing brace or bracket is removed, with a space or a tab
/// between them or nothing, and the text around it is kept: for text around it without
/// commas or single quotes, the repaired text is that text with the comma and the white
/// space gone.
pub proof fn lemma_fix_trailing_comma(s: Seq<char>, w: Seq<char>, c: char, t: Seq<char>)
    requires
        lacks(s, ','),
        lacks(s, '\''),
        lacks(t, ','),
        lacks(t, '\''),
        comma_gap(w),
        c == '}' || c == ']',
    ensures
        fixed(s + seq![','] + w + seq![c] + t) == s + seq![c] + t,
{
    reveal_strlit(", }");
    reveal_strlit(",\t}");
    reveal_strlit(",}");
    reveal_strlit(", ]");
    reveal_strlit(",\t]");
    reveal_strlit(",]");
    reveal_strlit("}");
    reveal_strlit("]");
    reveal_strlit("'");
    reveal_strlit("\"");
    let sp = seq![' '];
    let tb = seq!['\t'];
    let e = Seq::<char>::empty();
    assert(", }"@ =~= seq![','] + sp + seq!['}']);
    assert(",\t}"@ =~= seq![','] + tb + seq!['}']);
    assert(",}"@ =~= seq![','] + e + seq!['}']);
    assert(", ]"@ =~= seq![','] + sp + seq![']']);
    assert(",\t]"@ =~= seq![','] + tb + seq![']']);
    assert(",]"@ =~= seq![','] + e + seq![']']);
    assert("}"@ =~= seq!['}']);
    assert("]"@ =~= seq![']']);
    let u = s + seq![','] + w + seq![c] + t;
    let v = s + seq![c] + t;
    let a = replace_seq(u, ", }"@, "}"@);
    lemma_comma_step(u, s, w, c, t, sp, '}');
    let b = replace_seq(a, ",\t}"@, "}"@);
    lemma_comma_step(a, s, w, c, t, tb, '}');
    let cc = replace_seq(b, ",}"@, "}"@);
    lemma_comma_step(b, s, w, c, t, e, '}');
    let d = replace_seq(cc, ", ]"@, "]"@);
    lemma_comma_step(cc, s, w, c, t, sp, ']');
    let ee = replace_seq(d, ",\t]"@, "]"@);
    lemma_comma_step(d, s, w, c, t, tb, ']');
    let f = replace_seq(ee, ",]"@, "]"@);
    lemma_comma_step(ee, s, w, c, t, e, ']');
    assert(f == v);
    assert("'"@ =~= seq!['\'']);
    assert(lacks(v, '\'')) by {
        assert forall|i: int| 0 <= i < v.len() implies v[i] != '\'' by {
            if i < s.len() {
                assert(v[i] == s[i]);
            } else if i > s.len() {
                assert(v[i] == t[i - s.len() - 1]);
            }
        }
    }
    lemma_replace_absent(v, "'"@, "\""@);
}

/// Text without commas keeps every character but single quotes, which become double
/// quotes.
pub proof fn lemma_fix_quotes(s: Seq<char>)
    requires
        lacks(s, ','),
    ensures
        fixed(s) == s.map_values(|ch: char| if ch == '\'' { '"' } else { ch }),
{
    reveal_strlit(", }");
    reveal_strlit(",\t}");
    reveal_strlit(",}");
    reveal_strlit(", ]");
    reveal_strlit(",\t]");
    reveal_strlit(",]");
    reveal_strlit("'");
    reveal_strlit("\"");
    lemma_replace_absent(s, ", }"@, "}"@);
    lemma_replace_absent(s, ",\t}"@, "}"@);
    lemma_replace_absent(s, ",}"@, "}"@);
    lemma_replace_absent(s, ", ]"@, "]"@);
    lemma_replace_absent(s, ",\t]"@, "]"@);
    lemma_replace_absent(s, ",]"@, "]"@);
    assert("'"@ =~= seq!['\'']);
    assert("\""@ =~= seq!['"']);
    lemma_replace_char(s, '\'', '"');
}

proof fn lemma_brace_end_shape(s: Seq<char>, i: int, depth: int, in_string: bool, escaped: bool)
    ensures
        brace_end(s, i, depth, in_string, escaped) matches Some(e) ==> 0 <= i < e <= s.len() && s[e - 1] == '}',
    decreases s.len() - i,
{
    if 0 <= i < s.len() {
        lemma_brace_end_shape(s, i + 1, depth + 1, false, false);
        lemma_brace_end_shape(s, i + 1, depth - 1, false, false);
        lemma_brace_end_shape(s, i + 1, depth, false, false);
        lemma_brace_end_shape(s, i + 1, depth, true, false);
        lemma_brace_end_shape(s, i + 1, depth, true, true);
    }
}

proof fn lemma_first_index(s: Seq<char>, c: char)
    ensures
        -1 <= first_index_of(s, c) < s.len(),
        first_index_of(s, c) >= 0 ==> s[first_index_of(s, c)] == c,
        forall|j: int| 0 <= j < s.len() && (first_index_of(s, c) < 0 || j < first_index_of(s, c)) ==> s[j] != c,
    decreases s.len(),
{
    if s.len() > 0 && s[0] != c {
        lemma_first_index(s.drop_first(), c);
        assert forall|j: int| 0 <= j < s.len() && (first_index_of(s, c) < 0 || j < first_index_of(s, c)) implies s[j] != c by {
            if j > 0 {
                assert(s.drop_first()[j - 1] == s[j]);
            }
        }
    }
}

proof fn lemma_brace_end_plain(s: Seq<char>, i: int, j: int, depth: int)
    requires
        0 <= i <= j <= s.len(),
        forall|k: int| i <= k < j ==> s[k] != '{' && s[k] != '}' && s[k] != '"',
    ensures
        brace_end(s, i, depth, false, false) == brace_end(s, j, depth, false, false),
    decreases j - i,
{
    if i < j {
        lemma_brace_end_plain(s, i + 1, j, depth);
    }
}

/// The braces picked out of a reply start at its first `{` and end with a `}`; and for a
/// reply whose text before the first `{` has none, and whose braces hold no further brace
/// or quote, they are that `{ ... }` exactly, whatever follows.
pub proof fn lemma_braces_picked(content: Seq<char>, p: Seq<char>, q: Seq<char>, r: Seq<char>)
    ensures
        braces_of(content) matches Some(x) ==> x.len() >= 2 && x[0] == '{' && x.last() == '}' && exists|start: int|
            0 <= start && start + x.len() <= content.len() && #[trigger] content.subrange(start, start + x.len()) == x
                && forall|k: int| 0 <= k < start ==> content[k] != '{',
        lacks(p, '{') && lacks(q, '{') && lacks(q, '}') && lacks(q, '"') ==> braces_of(p + seq!['{'] + q + seq!['}'] + r)
            == Some(seq!['{'] + q + seq!['}']),
{
    lemma_first_index(content, '{');
    let start = first_index_of(content, '{');
    if start >= 0 {
        lemma_brace_end_shape(content, start, 0, false, false);
        if let Some(end) = brace_end(content, start, 0, false, false) {
            let x = content.subrange(start, end);
            if end == start + 1 {
                assert(content[start] == '{');
                assert(false);
            }
            assert(x[0] == content[start]);
            assert(x.last() == content[end - 1]);
            assert(content.subrange(start, start + x.len()) =~= x);
        }
    }
    if lacks(p, '{') && lacks(q, '{') && lacks(q, '}') && lacks(q, '"') {
        let u = p + seq!['{'] + q + seq!['}'] + r;
        let st = p.len() as int;
        lemma_first_index(u, '{');
        assert(u[st] == '{');
        assert forall|k: int| 0 <= k < st implies u[k] != '{' by {
            assert(u[k] == p[k]);
        }
        assert(first_index_of(u, '{') == st);
        let qe = st + 1 + q.len();
        assert forall|k: int| st + 1 <= k < qe implies u[k] != '{' && u[k] != '}' && u[k] != '"' by {
            assert(u[k] == q[k - st - 1]);
        }
        lemma_brace_end_plain(u, st + 1, qe, 1);
        assert(u[qe] == '}');
        assert(brace_end(u, st, 0, false, false) == brace_end(u, st + 1, 1, false, false));
        assert(brace_end(u, qe, 1, false, false) == Some(qe + 1));
        assert(u.subrange(st, qe + 1) =~= seq!['{'] + q + seq!['}']);
    }
}

proof fn lemma_trim_kept(t: Seq<char>)
    requires
        t.len() == 0 || (!crate::text::is_white(t[0]) && !crate::text::is_white(t.last())),
    ensures
        trim_seq(t) == t,
{
}

/// Code fences are taken off: a reply wrapped as a `json` code block gives back the text
/// inside, and a reply without backticks and without white space at its ends is kept as
/// it is.
pub proof fn lemma_strip_fences(t: Seq<char>)
    requires
        lacks(t, '`'),
        t.len() == 0 || (!crate::text::is_white(t[0]) && !crate::text::is_white(t.last())),
    ensures
        stripped("```json\n"@ + t + "```"@) == t,
        stripped(t) == t,
{
    reveal_strlit("```json\n");
    reveal_strlit("```json");
    reveal_strlit("```\n");
    reveal_strlit("```");
    let p1 = "```json\n"@;
    let p2 = "```json"@;
    let p3 = "```\n"@;
    let p4 = "```"@;
    let e = Seq::<char>::empty();
    let f = p4;
    assert(p1[0] == '`' && p2[0] == '`' && p3[0] == '`' && p4[0] == '`');
    let u = p1 + t + f;
    assert(u.subrange(0, p1.len() as int) =~= p1);
    assert(u.subrange(p1.len() as int, u.len() as int) =~= t + f);
    lemma_replace_after_free(t, f, p1, e);
    assert(replace_seq(f, p1, e) == f);
    assert(replace_seq(u, p1, e) == e + replace_seq(t + f, p1, e));
    assert(e + (t + f) =~= t + f);
    let a = t + f;
    lemma_replace_after_free(t, f, p2, e);
    assert(replace_seq(f, p2, e) == f);
    lemma_replace_after_free(t, f, p3, e);
    assert(replace_seq(f, p3, e) == f);
    lemma_replace_after_free(t, f, p4, e);
    assert(f.subrange(0, p4.len() as int) =~= p4);
    assert(f.subrange(p4.len() as int, f.len() as int) =~= e);
    assert(replace_seq(e, p4, e) == e);
    assert(replace_seq(f, p4, e) == e + replace_seq(e, p4, e));
    assert(t + (e + e) =~= t);
    lemma_trim_kept(t);
    lemma_replace_absent(t, p1, e);
    lemma_replace_absent(t, p2, e);
    lemma_replace_absent(t, p3, e);
    lemma_replace_absent(t, p4, e);
}

} // verus!
