//! The Anthropic messages response format.
use vstd::prelude::*;
use crate::json::{
    array, get_in, is_json_text, items_view, json_error_of, json_error_text, json_text, json_text_valid,
    json_view, members_view,
    number_text, object, opt_array, opt_get, opt_str, push_item, push_member, str_json, str_or_empty,
    to_json_text, u32_or_zero, u32_or_zero_exec, Json, JsonNumber, JsonView,
};
use crate::llm::prompt_builder::CachedTool;
use crate::llm::tool_use_loop::tool_registry::ToolDefinition;
use crate::llm::tool_use_loop::ToolCall;
use crate::llm::{blocks_view, ChatRequest, ChatResponse, LlmError, Message, TextBlock};
use crate::text::{concat2, join_seq, join_strings, lemma_names_push, names_view, owned, str_eq};
use crate::token::tracker::TokenUsage;
use super::openai::{call_view, calls_view, jstr, request_model, temperature_json, temperature_text, CallView};

verus! {

/// A string value or empty.
pub open spec fn str_or_empty_spec(o: Option<Json>) -> Seq<char> {
    match opt_str(o) {
        Some(s) => s,
        None => Seq::empty(),
    }
}

/// Texts and tool calls of the content blocks: a `text` block gives its text (when it is a
/// string), a `tool_use` block a call with its id and name (empty when absent) and the JSON
/// text of its input (`{}` when absent); other blocks give nothing.
pub open spec fn anthropic_parts(a: Seq<Json>) -> (Seq<Seq<char>>, Seq<CallView>)
    decreases a.len(),
{
    if a.len() == 0 {
        (Seq::empty(), Seq::empty())
    } else {
        let (t, c) = anthropic_parts(a.drop_last());
        let b = a.last();
        match opt_str(b.get_spec("type"@)) {
            Some(ty) => if ty == "text"@ {
                match opt_str(b.get_spec("text"@)) {
                    Some(x) => (t.push(x), c),
                    None => (t, c),
                }
            } else if ty == "tool_use"@ {
                (t, c.push((str_or_empty_spec(b.get_spec("id"@)), str_or_empty_spec(b.get_spec("name"@)), match b.get_spec("input"@) {
                    Some(v) => json_text(v),
                    None => "{}"@,
                })))
            } else {
                (t, c)
            },
            None => (t, c),
        }
    }
}

/// The blocks of the response content.
pub open spec fn anthropic_blocks(raw: Json) -> Seq<Json> {
    match opt_array(raw.get_spec("content"@)) {
        Some(a) => a,
        None => Seq::empty(),
    }
}

/// The response text: the text blocks joined by line breaks.
pub open spec fn anthropic_content(raw: Json) -> Seq<char> {
    join_seq(anthropic_parts(anthropic_blocks(raw)).0, "\n"@)
}

/// Input and output token counts (0 when absent, cut to 32 bits).
pub open spec fn anthropic_counts(raw: Json) -> (u32, u32) {
    let u = raw.get_spec("usage"@);
    (u32_or_zero(opt_get(u, "input_tokens"@)), u32_or_zero(opt_get(u, "output_tokens"@)))
}

/// Reads an Anthropic messages response: the text blocks joined by line breaks, the
/// tool-use blocks as tool calls, input and output tokens with their sum as the total;
/// the document is kept as the raw response. The sum must fit in `u32`.
pub fn parse_anthropic_response(raw: Json) -> (r: ChatResponse)
    requires
        anthropic_counts(raw).0 + anthropic_counts(raw).1 <= u32::MAX,
    ensures
        r.content@ == anthropic_content(raw),
        calls_view(r.tool_calls@) == anthropic_parts(anthropic_blocks(raw)).1,
        r.usage.prompt_tokens == anthropic_counts(raw).0,
        r.usage.completion_tokens == anthropic_counts(raw).1,
        r.usage.total_tokens == anthropic_counts(raw).0 + anthropic_counts(raw).1,
        r.raw == raw,
{
    proof {
        reveal_strlit("content");
        reveal_strlit("type");
        reveal_strlit("text");
        reveal_strlit("tool_use");
        reveal_strlit("id");
        reveal_strlit("name");
        reveal_strlit("input");
        reveal_strlit("usage");
        reveal_strlit("input_tokens");
        reveal_strlit("output_tokens");
        reveal_strlit("{}");
    }
    let mut texts: Vec<String> = Vec::new();
    let mut tool_calls: Vec<ToolCall> = Vec::new();
    let empty: Vec<Json> = Vec::new();
    let blocks: &Vec<Json> = match raw.get("content") {
        Some(c) => match c.as_array() {
            Some(a) => a,
            None => &empty,
        },
        None => &empty,
    };
    assert(blocks@ == anthropic_blocks(raw));
    let mut i: usize = 0;
    while i < blocks.len()
        invariant
            i <= blocks.len(),
            (names_view(texts@), calls_view(tool_calls@)) == anthropic_parts(blocks@.subrange(0, i as int)),
        decreases blocks.len() - i,
    {
        proof {
            assert(blocks@.subrange(0, i + 1).drop_last() =~= blocks@.subrange(0, i as int));
        }
        let b = &blocks[i];
        match get_in(Some(b), "type") {
            Some(t) => match t.as_str() {
                Some(ty) => {
                    if str_eq(ty, "text") {
                        match get_in(Some(b), "text") {
                            Some(x) => match x.as_str() {
                                Some(s) => {
                                    let o = owned(s);
                                    proof { lemma_names_push(texts@, o); }
                                    texts.push(o);
                                },
                                None => {},
                            },
                            None => {},
                        }
                    } else if str_eq(ty, "tool_use") {
                        let id = str_or_empty(get_in(Some(b), "id"));
                        let name = str_or_empty(get_in(Some(b), "name"));
                        let arguments = match b.get("input") {
                            Some(v) => to_json_text(v),
                            None => owned("{}"),
                        };
                        let c = ToolCall { id, name, arguments };
                        let ghost before = tool_calls@;
                        let ghost cv = call_view(c);
                        tool_calls.push(c);
                        assert(calls_view(tool_calls@) =~= calls_view(before).push(cv));
                    }
                },
                None => {},
            },
            None => {},
        }
        i = i + 1;
    }
    assert(blocks@.subrange(0, blocks.len() as int) =~= blocks@);
    let content = join_strings(&texts, "\n");
    let usage_doc = raw.get("usage");
    let prompt_tokens = u32_or_zero_exec(get_in(usage_doc, "input_tokens"));
    let completion_tokens = u32_or_zero_exec(get_in(usage_doc, "output_tokens"));
    let usage = TokenUsage { prompt_tokens, completion_tokens, total_tokens: prompt_tokens + completion_tokens };
    ChatResponse { content, tool_calls, usage, raw }
}

/// The Anthropic adapter: endpoint and response format of the messages API.
#[derive(Debug, Default)]
pub struct AnthropicAdapter;

/// The input of a tool call: its arguments text when that is JSON, else an empty object.
pub open spec fn tool_input_json(args: Seq<char>) -> JsonView {
    if is_json_text(args) {
        JsonView::Raw(args)
    } else {
        JsonView::Object(Seq::empty())
    }
}

/// A `tool_use` block for a tool call.
pub open spec fn anthropic_call_json(c: ToolCall) -> JsonView {
    JsonView::Object(
        seq![
            ("type"@, jstr("tool_use"@)),
            ("id"@, jstr(c.id@)),
            ("name"@, jstr(c.name@)),
            ("input"@, tool_input_json(c.arguments@)),
        ],
    )
}

/// The content blocks of an assistant message: its text (when not empty), then a
/// `tool_use` block per tool call.
pub open spec fn assistant_blocks(content: Seq<char>, calls: Seq<ToolCall>) -> Seq<JsonView> {
    (if content.len() > 0 {
        seq![JsonView::Object(seq![("type"@, jstr("text"@)), ("text"@, jstr(content))])]
    } else {
        Seq::empty()
    }) + calls.map_values(|c: ToolCall| anthropic_call_json(c))
}

/// A message in the messages format; none for a system message (it goes to the top
/// level) and for an assistant message without text and tool calls. A tool result is a
/// user message with a `tool_result` block.
pub open spec fn anthropic_message_json(m: Message) -> Option<JsonView> {
    match m {
        Message::System { .. } => None,
        Message::User { content } => Some(JsonView::Object(seq![("role"@, jstr("user"@)), ("content"@, jstr(content@))])),
        Message::Assistant { content, tool_calls } => if content@.len() == 0 && tool_calls@.len() == 0 {
            None
        } else {
            Some(
                JsonView::Object(
                    seq![("role"@, jstr("assistant"@)), ("content"@, JsonView::Array(assistant_blocks(content@, tool_calls@)))],
                ),
            )
        },
        Message::Tool { tool_call_id, content, is_error } => Some(
            JsonView::Object(
                seq![
                    ("role"@, jstr("user"@)),
                    (
                        "content"@,
                        JsonView::Array(
                            seq![
                                JsonView::Object(
                                    seq![
                                        ("type"@, jstr("tool_result"@)),
                                        ("tool_use_id"@, jstr(tool_call_id@)),
                                        ("content"@, jstr(content@)),
                                        ("is_error"@, JsonView::Bool(is_error)),
                                    ],
                                ),
                            ],
                        ),
                    ),
                ],
            ),
        ),
    }
}

/// The messages in the messages format, in order, without those that have none.
pub open spec fn anthropic_messages(ms: Seq<Message>) -> Seq<JsonView>
    decreases ms.len(),
{
    if ms.len() == 0 {
        Seq::empty()
    } else {
        match anthropic_message_json(ms.last()) {
            Some(j) => anthropic_messages(ms.drop_last()).push(j),
            None => anthropic_messages(ms.drop_last()),
        }
    }
}

/// The role of a message object: the value of its first member, when that is a string
/// named `role`.
pub open spec fn role_of(j: JsonView) -> Option<Seq<char>> {
    match j {
        JsonView::Object(m) => if m.len() > 0 && m[0].0 == "role"@ {
            match m[0].1 {
                JsonView::Str(r) => Some(r),
                _ => None,
            }
        } else {
            None
        },
        _ => None,
    }
}

/// Every message of a messages-format body is a user or assistant message: the system
/// text never appears among them.
pub proof fn lemma_anthropic_roles(ms: Seq<Message>)
    ensures
        forall|i: int|
            0 <= i < anthropic_messages(ms).len() ==> (#[trigger] role_of(anthropic_messages(ms)[i]) == Some("user"@)
                || role_of(anthropic_messages(ms)[i]) == Some("assistant"@)),
    decreases ms.len(),
{
    if ms.len() > 0 {
        lemma_anthropic_roles(ms.drop_last());
    }
}

/// The blocks of the first system message.
pub open spec fn first_system(ms: Seq<Message>) -> Option<Seq<(Seq<char>, bool)>>
    decreases ms.len(),
{
    if ms.len() == 0 {
        None
    } else {
        match ms[0] {
            Message::System { content } => Some(blocks_view(content@)),
            _ => first_system(ms.drop_first()),
        }
    }
}

/// A system text block: its text, and an `ephemeral` cache control when it carries a
/// cache breakpoint.
pub open spec fn system_block_json(b: (Seq<char>, bool)) -> JsonView {
    JsonView::Object(
        seq![("type"@, jstr("text"@)), ("text"@, jstr(b.0))] + if b.1 {
            seq![("cache_control"@, JsonView::Object(seq![("type"@, jstr("ephemeral"@))]))]
        } else {
            Seq::empty()
        },
    )
}

/// A tool offered to the model: name, description and input schema.
pub open spec fn anthropic_tool_json(t: ToolDefinition) -> JsonView {
    JsonView::Object(
        seq![("name"@, jstr(t.name@)), ("description"@, jstr(t.description@)), ("input_schema"@, JsonView::Raw(t.parameters@))],
    )
}

/// The `system` member, when the request has a system message.
pub open spec fn system_part(r: ChatRequest) -> Seq<(Seq<char>, JsonView)> {
    match first_system(r.messages@) {
        Some(bs) => seq![("system"@, JsonView::Array(bs.map_values(|b: (Seq<char>, bool)| system_block_json(b))))],
        None => Seq::empty(),
    }
}

/// The `tools` member, when the request has tools.
pub open spec fn anthropic_tools_part(r: ChatRequest) -> Seq<(Seq<char>, JsonView)> {
    match r.tools {
        Some(t) => seq![("tools"@, JsonView::Array(t@.map_values(|c: CachedTool| anthropic_tool_json(c.definition))))],
        None => Seq::empty(),
    }
}

/// The body of a messages request: model, a limit of 8192 output tokens, messages and
/// temperature, then the system text and the tools when the request has them.
pub open spec fn anthropic_body(r: ChatRequest, default_model: Seq<char>) -> JsonView {
    JsonView::Object(
        seq![
            ("model"@, jstr(request_model(r, default_model))),
            ("max_tokens"@, JsonView::Number(number_text(JsonNumber::PosInt(8192)))),
            ("messages"@, JsonView::Array(anthropic_messages(r.messages@))),
            ("temperature"@, JsonView::Number(temperature_text(r.temperature))),
        ] + system_part(r) + anthropic_tools_part(r),
    )
}

/// A `tool_use` block for a tool call.
fn call_to_anthropic(c: &ToolCall) -> (j: Json)
    ensures
        json_view(j) == anthropic_call_json(*c),
{
    let input = if json_text_valid(c.arguments.as_str()) {
        Json::Raw(owned(c.arguments.as_str()))
    } else {
        let none: Vec<(String, Json)> = Vec::new();
        assert(members_view(none@) =~= Seq::empty());
        object(none)
    };
    let mut m: Vec<(String, Json)> = Vec::new();
    push_member(&mut m, "type", str_json("tool_use"));
    push_member(&mut m, "id", str_json(c.id.as_str()));
    push_member(&mut m, "name", str_json(c.name.as_str()));
    push_member(&mut m, "input", input);
    assert(members_view(m@) =~= seq![
        ("type"@, jstr("tool_use"@)),
        ("id"@, jstr(c.id@)),
        ("name"@, jstr(c.name@)),
        ("input"@, tool_input_json(c.arguments@)),
    ]);
    object(m)
}

/// A tool in the messages format.
fn tool_to_anthropic(t: &ToolDefinition) -> (j: Json)
    ensures
        json_view(j) == anthropic_tool_json(*t),
{
    let mut m: Vec<(String, Json)> = Vec::new();
    push_member(&mut m, "name", str_json(t.name.as_str()));
    push_member(&mut m, "description", str_json(t.description.as_str()));
    push_member(&mut m, "input_schema", Json::Raw(owned(t.parameters.as_str())));
    assert(members_view(m@) =~= seq![("name"@, jstr(t.name@)), ("description"@, jstr(t.description@)), ("input_schema"@, JsonView::Raw(t.parameters@))]);
    object(m)
}

/// An object `{"role": role, "content": content}` with a string content.
fn role_text(role: &str, content: &str) -> (j: Json)
    ensures
        json_view(j) == JsonView::Object(seq![("role"@, jstr(role@)), ("content"@, jstr(content@))]),
{
    let mut m: Vec<(String, Json)> = Vec::new();
    push_member(&mut m, "role", str_json(role));
    push_member(&mut m, "content", str_json(content));
    assert(members_view(m@) =~= seq![("role"@, jstr(role@)), ("content"@, jstr(content@))]);
    object(m)
}

/// A system text block in the messages format.
fn block_to_anthropic(b: &TextBlock) -> (j: Json)
    ensures
        json_view(j) == system_block_json((b.text@, b.cache_breakpoint)),
{
    let mut m: Vec<(String, Json)> = Vec::new();
    push_member(&mut m, "type", str_json("text"));
    push_member(&mut m, "text", str_json(b.text.as_str()));
    let ghost head = members_view(m@);
    if b.cache_breakpoint {
        let mut c: Vec<(String, Json)> = Vec::new();
        push_member(&mut c, "type", str_json("ephemeral"));
        assert(members_view(c@) =~= seq![("type"@, jstr("ephemeral"@))]);
        push_member(&mut m, "cache_control", object(c));
    }
    assert(members_view(m@) =~= seq![("type"@, jstr("text"@)), ("text"@, jstr(b.text@))] + if b.cache_breakpoint {
        seq![("cache_control"@, JsonView::Object(seq![("type"@, jstr("ephemeral"@))]))]
    } else {
        Seq::empty()
    });
    object(m)
}

/// The system blocks of the first system message, in the messages format.
fn find_system(ms: &Vec<Message>) -> (r: Option<Json>)
    ensures
        match r {
            Some(j) => first_system(ms@) matches Some(bs) && json_view(j) == JsonView::Array(
                bs.map_values(|b: (Seq<char>, bool)| system_block_json(b)),
            ),
            None => first_system(ms@) is None,
        },
{
    let mut i: usize = 0;
    assert(ms@.subrange(0, ms@.len() as int) =~= ms@);
    while i < ms.len()
        invariant
            i <= ms.len(),
            first_system(ms@) == first_system(ms@.subrange(i as int, ms@.len() as int)),
        decreases ms.len() - i,
    {
        proof {
            let t = ms@.subrange(i as int, ms@.len() as int);
            assert(t.drop_first() =~= ms@.subrange(i + 1, ms@.len() as int));
            assert(t[0] == ms@[i as int]);
        }
        match &ms[i] {
            Message::System { content } => {
                let mut a: Vec<Json> = Vec::new();
                let mut k: usize = 0;
                while k < content.len()
                    invariant
                        k <= content.len(),
                        items_view(a@) =~= blocks_view(content@).subrange(0, k as int).map_values(
                            |b: (Seq<char>, bool)| system_block_json(b),
                        ),
                    decreases content.len() - k,
                {
                    push_item(&mut a, block_to_anthropic(&content[k]));
                    k = k + 1;
                    assert(items_view(a@) =~= blocks_view(content@).subrange(0, k as int).map_values(
                        |b: (Seq<char>, bool)| system_block_json(b),
                    ));
                }
                assert(blocks_view(content@).subrange(0, content.len() as int) =~= blocks_view(content@));
                return Some(array(a));
            },
            _ => {},
        }
        i = i + 1;
    }
    None
}

impl AnthropicAdapter {
    /// A message in the messages format; `None` for a system message and for an
    /// assistant message with neither text nor tool calls.
    pub fn message_to_anthropic(&self, msg: &Message) -> (r: Option<Json>)
        ensures
            super::openai::opt_view(r) == anthropic_message_json(*msg),
    {
        match msg {
            Message::System { .. } => None,
            Message::User { content } => Some(role_text("user", content.as_str())),
            Message::Assistant { content, tool_calls } => {
                if content.as_str().is_empty() && tool_calls.len() == 0 {
                    return None;
                }
                let mut blocks: Vec<Json> = Vec::new();
                if !content.as_str().is_empty() {
                    let mut t: Vec<(String, Json)> = Vec::new();
                    push_member(&mut t, "type", str_json("text"));
                    push_member(&mut t, "text", str_json(content.as_str()));
                    assert(members_view(t@) =~= seq![("type"@, jstr("text"@)), ("text"@, jstr(content@))]);
                    push_item(&mut blocks, object(t));
                }
                let ghost head = items_view(blocks@);
                let mut i: usize = 0;
                while i < tool_calls.len()
                    invariant
                        i <= tool_calls.len(),
                        items_view(blocks@) =~= head + tool_calls@.subrange(0, i as int).map_values(|c: ToolCall| anthropic_call_json(c)),
                    decreases tool_calls.len() - i,
                {
                    push_item(&mut blocks, call_to_anthropic(&tool_calls[i]));
                    i = i + 1;
                    assert(items_view(blocks@) =~= head + tool_calls@.subrange(0, i as int).map_values(|c: ToolCall| anthropic_call_json(c)));
                }
                assert(tool_calls@.subrange(0, tool_calls.len() as int) =~= tool_calls@);
                assert(items_view(blocks@) =~= assistant_blocks(content@, tool_calls@));
                let mut m: Vec<(String, Json)> = Vec::new();
                push_member(&mut m, "role", str_json("assistant"));
                push_member(&mut m, "content", array(blocks));
                assert(members_view(m@) =~= seq![("role"@, jstr("assistant"@)), ("content"@, JsonView::Array(assistant_blocks(content@, tool_calls@)))]);
                Some(object(m))
            },
            Message::Tool { tool_call_id, content, is_error } => {
                let mut b: Vec<(String, Json)> = Vec::new();
                push_member(&mut b, "type", str_json("tool_result"));
                push_member(&mut b, "tool_use_id", str_json(tool_call_id.as_str()));
                push_member(&mut b, "content", str_json(content.as_str()));
                push_member(&mut b, "is_error", Json::Bool(*is_error));
                let ghost bv = seq![
                    ("type"@, jstr("tool_result"@)),
                    ("tool_use_id"@, jstr(tool_call_id@)),
                    ("content"@, jstr(content@)),
                    ("is_error"@, JsonView::Bool(*is_error)),
                ];
                assert(members_view(b@) =~= bv);
                let mut items: Vec<Json> = Vec::new();
                push_item(&mut items, object(b));
                assert(items_view(items@) =~= seq![JsonView::Object(bv)]);
                let mut m: Vec<(String, Json)> = Vec::new();
                push_member(&mut m, "role", str_json("user"));
                push_member(&mut m, "content", array(items));
                assert(members_view(m@) =~= seq![("role"@, jstr("user"@)), ("content"@, JsonView::Array(seq![JsonView::Object(bv)]))]);
                Some(object(m))
            },
        }
    }

    /// The body of a messages request; `default_model` when the request names no model.
    pub fn build_request(&self, request: &ChatRequest, default_model: &str) -> (j: Json)
        ensures
            json_view(j) == anthropic_body(*request, default_model@),
    {
        let model = if request.model.as_str().is_empty() {
            str_json(default_model)
        } else {
            str_json(request.model.as_str())
        };
        let system = find_system(&request.messages);
        let mut msgs: Vec<Json> = Vec::new();
        let mut i: usize = 0;
        while i < request.messages.len()
            invariant
                i <= request.messages.len(),
                items_view(msgs@) == anthropic_messages(request.messages@.subrange(0, i as int)),
            decreases request.messages.len() - i,
        {
            proof {
                let t = request.messages@.subrange(0, i + 1);
                assert(t.drop_last() =~= request.messages@.subrange(0, i as int));
                assert(t.last() == request.messages@[i as int]);
            }
            match self.message_to_anthropic(&request.messages[i]) {
                Some(j) => push_item(&mut msgs, j),
                None => {},
            }
            i = i + 1;
        }
        assert(request.messages@.subrange(0, request.messages.len() as int) =~= request.messages@);
        let mut body: Vec<(String, Json)> = Vec::new();
        push_member(&mut body, "model", model);
        push_member(&mut body, "max_tokens", Json::Number(JsonNumber::PosInt(8192)));
        push_member(&mut body, "messages", array(msgs));
        push_member(&mut body, "temperature", temperature_json(&request.temperature));
        let ghost head = members_view(body@);
        match system {
            Some(sys) => push_member(&mut body, "system", sys),
            None => {},
        }
        assert(members_view(body@) =~= head + system_part(*request));
        let ghost with_system = members_view(body@);
        match &request.tools {
            Some(t) => {
                let mut ts: Vec<Json> = Vec::new();
                let mut k: usize = 0;
                while k < t.len()
                    invariant
                        k <= t.len(),
                        items_view(ts@) =~= t@.subrange(0, k as int).map_values(|c: CachedTool| anthropic_tool_json(c.definition)),
                    decreases t.len() - k,
                {
                    push_item(&mut ts, tool_to_anthropic(&t[k].definition));
                    k = k + 1;
                    assert(items_view(ts@) =~= t@.subrange(0, k as int).map_values(|c: CachedTool| anthropic_tool_json(c.definition)));
                }
                assert(t@.subrange(0, t.len() as int) =~= t@);
                push_member(&mut body, "tools", array(ts));
            },
            None => {},
        }
        assert(members_view(body@) =~= with_system + anthropic_tools_part(*request));
        assert(head =~= seq![
            ("model"@, jstr(request_model(*request, default_model@))),
            ("max_tokens"@, JsonView::Number(number_text(JsonNumber::PosInt(8192)))),
            ("messages"@, JsonView::Array(anthropic_messages(request.messages@))),
            ("temperature"@, JsonView::Number(temperature_text(request.temperature))),
        ]);
        assert(members_view(body@) =~= head + system_part(*request) + anthropic_tools_part(*request));
        object(body)
    }

    /// The headers of a request: the API key and the API version.
    pub fn headers(&self, api_key: &str) -> (h: Vec<(String, String)>)
        ensures
            h@.len() == 2,
            h@[0].0@ == "x-api-key"@,
            h@[0].1@ == api_key@,
            h@[1].0@ == "anthropic-version"@,
            h@[1].1@ == "2023-10-01"@,
    {
        vec![(owned("x-api-key"), owned(api_key)), (owned("anthropic-version"), owned("2023-10-01"))]
    }

    /// `anthropic`.
    pub fn id(&self) -> (s: &'static str)
        ensures
            s@ == "anthropic"@,
    {
        "anthropic"
    }

    /// The messages URL under `base`.
    pub fn endpoint(&self, base: &str) -> (s: String)
        ensures
            s@ == base@ + "/v1/messages"@,
    {
        concat2(base, "/v1/messages")
    }

    /// Reads a response; never fails.
    pub fn parse_response(&self, raw: Json) -> (r: Result<ChatResponse, LlmError>)
        requires
            anthropic_counts(raw).0 + anthropic_counts(raw).1 <= u32::MAX,
        ensures
            r matches Ok(c) && c.content@ == anthropic_content(raw) && calls_view(c.tool_calls@) == anthropic_parts(
                anthropic_blocks(raw),
            ).1 && c.usage.prompt_tokens == anthropic_counts(raw).0 && c.usage.completion_tokens == anthropic_counts(raw).1
                && c.usage.total_tokens == anthropic_counts(raw).0 + anthropic_counts(raw).1 && c.raw == raw,
    {
        Ok(parse_anthropic_response(raw))
    }
}

/// The outcome of an HTTP exchange with a provider: a body that is not JSON is a parse
/// error naming the provider and the parser's message; otherwise a status of 400 or more is
/// an API error with the body; otherwise the response can be read.
pub fn http_outcome(status: u16, body: String, json_error: Option<String>, provider_name: &str) -> (r: Result<(), LlmError>)
    ensures
        match json_error {
            Some(e) => r matches Err(LlmError::ParseError { detail }) && detail@ == "Invalid JSON from "@ + provider_name@ + ": "@ + e@,
            None => if status >= 400 {
                r matches Err(LlmError::ApiError { status: s, body: b }) && s == status && b == body
            } else {
                r is Ok
            },
        },
{
    match json_error {
        Some(e) => {
            let mut detail = concat2("Invalid JSON from ", provider_name);
            detail.append(": ");
            detail.append(e.as_str());
            Err(LlmError::ParseError { detail })
        },
        None => {
            if status >= 400 {
                Err(LlmError::ApiError { status, body })
            } else {
                Ok(())
            }
        },
    }
}

/// The outcome of an HTTP exchange, the body parsed as JSON here: `http_outcome` with the
/// parser's message for that body.
pub fn response_outcome(status: u16, body: String, provider_name: &str) -> (r: Result<(), LlmError>)
    ensures
        match json_error_of(body@) {
            Some(e) => r matches Err(LlmError::ParseError { detail }) && detail@ == "Invalid JSON from "@ + provider_name@ + ": "@ + e,
            None => if status >= 400 {
                r matches Err(LlmError::ApiError { status: s, body: b }) && s == status && b == body
            } else {
                r is Ok
            },
        },
{
    let json_error = json_error_text(body.as_str());
    http_outcome(status, body, json_error, provider_name)
}

/// A provider cannot be created without an API key.
pub fn require_api_key(api_key: &str, provider: &str) -> (r: Result<(), LlmError>)
    ensures
        api_key@.len() == 0 ==> (r matches Err(LlmError::MissingApiKey { provider: p }) && p@ == provider@),
        api_key@.len() > 0 ==> r is Ok,
{
    if api_key.is_empty() {
        Err(LlmError::MissingApiKey { provider: owned(provider) })
    } else {
        Ok(())
    }
}

} // verus!
