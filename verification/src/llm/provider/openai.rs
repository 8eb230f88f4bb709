//! The OpenAI chat-completions response format.
use vstd::prelude::*;
use crate::json::{
    array, at_in, get_in, is_json_text, items_view, json_text_valid, json_view, members_view,
    number_text, object, opt_array, opt_at, opt_get, opt_str, push_item, push_member, str_json, str_or_empty,
    u32_or_zero, u32_or_zero_exec, Json, JsonNumber, JsonView,
};
use crate::llm::prompt_builder::CachedTool;
use crate::llm::tool_use_loop::tool_registry::ToolDefinition;
use crate::llm::tool_use_loop::ToolCall;
use crate::llm::{flat_text, flatten_text, ChatRequest, ChatResponse, LlmError, Message, ToolChoice};
use crate::text::{concat2, owned};
use crate::token::tracker::TokenUsage;

verus! {

/// A tool call as characters: id, name, arguments.
pub type CallView = (Seq<char>, Seq<char>, Seq<char>);

/// A tool call as characters.
pub open spec fn call_view(c: ToolCall) -> CallView {
    (c.id@, c.name@, c.arguments@)
}

/// Tool calls as characters.
pub open spec fn calls_view(v: Seq<ToolCall>) -> Seq<CallView> {
    v.map_values(|c: ToolCall| call_view(c))
}

/// The message of the first choice.
pub open spec fn openai_message(raw: Json) -> Option<Json> {
    opt_get(opt_at(raw.get_spec("choices"@), 0), "message"@)
}

/// A tool call of the response when its id, function name and function arguments are
/// strings and the arguments are a JSON text.
pub open spec fn openai_call(call: Json) -> Option<CallView> {
    let f = call.get_spec("function"@);
    match (opt_str(call.get_spec("id"@)), opt_str(opt_get(f, "name"@)), opt_str(opt_get(f, "arguments"@))) {
        (Some(id), Some(name), Some(args)) => if is_json_text(args) {
            Some((id, name, args))
        } else {
            None
        },
        _ => None,
    }
}

/// The well-formed tool calls of `a`, in order.
pub open spec fn openai_calls(a: Seq<Json>) -> Seq<CallView>
    decreases a.len(),
{
    if a.len() == 0 {
        Seq::empty()
    } else {
        match openai_call(a.last()) {
            Some(c) => openai_calls(a.drop_last()).push(c),
            None => openai_calls(a.drop_last()),
        }
    }
}

/// The text of the first choice's message, empty when it has none.
pub open spec fn openai_content(raw: Json) -> Seq<char> {
    match opt_str(opt_get(openai_message(raw), "content"@)) {
        Some(s) => s,
        None => Seq::empty(),
    }
}

/// The tool calls of the first choice's message.
pub open spec fn openai_tool_calls(raw: Json) -> Seq<CallView> {
    match opt_array(opt_get(openai_message(raw), "tool_calls"@)) {
        Some(a) => openai_calls(a),
        None => Seq::empty(),
    }
}

/// Token usage of the response: each count read as an integer (0 when absent), cut to
/// 32 bits.
pub open spec fn openai_usage(raw: Json) -> TokenUsage {
    let u = raw.get_spec("usage"@);
    TokenUsage {
        prompt_tokens: u32_or_zero(opt_get(u, "prompt_tokens"@)),
        completion_tokens: u32_or_zero(opt_get(u, "completion_tokens"@)),
        total_tokens: u32_or_zero(opt_get(u, "total_tokens"@)),
    }
}

/// One tool call of an OpenAI response, when it is well formed.
fn openai_call_exec(call: &Json) -> (r: Option<ToolCall>)
    ensures
        match r {
            Some(c) => openai_call(*call) == Some(call_view(c)),
            None => openai_call(*call) is None,
        },
{
    let f = call.get("function");
    let id = match get_in(Some(call), "id") {
        Some(v) => v.as_str(),
        None => None,
    };
    let name = match get_in(f, "name") {
        Some(v) => v.as_str(),
        None => None,
    };
    let args = match get_in(f, "arguments") {
        Some(v) => v.as_str(),
        None => None,
    };
    match (id, name, args) {
        (Some(id), Some(name), Some(args)) => {
            if json_text_valid(args) {
                Some(ToolCall { id: owned(id), name: owned(name), arguments: owned(args) })
            } else {
                None
            }
        },
        _ => None,
    }
}

/// Reads an OpenAI chat-completions response: the first choice's text and well-formed
/// tool calls, and the token usage; the document is kept as the raw response.
pub fn parse_openai_response(raw: Json) -> (r: ChatResponse)
    ensures
        r.content@ == openai_content(raw),
        calls_view(r.tool_calls@) == openai_tool_calls(raw),
        r.usage == openai_usage(raw),
        r.raw == raw,
{
    proof {
        reveal_strlit("choices");
        reveal_strlit("message");
        reveal_strlit("content");
        reveal_strlit("tool_calls");
        reveal_strlit("usage");
        reveal_strlit("prompt_tokens");
        reveal_strlit("completion_tokens");
        reveal_strlit("total_tokens");
        reveal_strlit("function");
        reveal_strlit("id");
        reveal_strlit("name");
        reveal_strlit("arguments");
    }
    let message = get_in(at_in(raw.get("choices"), 0), "message");
    let content = str_or_empty(get_in(message, "content"));
    let mut tool_calls: Vec<ToolCall> = Vec::new();
    match get_in(message, "tool_calls") {
        Some(list) => match list.as_array() {
            Some(a) => {
                let mut i: usize = 0;
                while i < a.len()
                    invariant
                        i <= a.len(),
                        calls_view(tool_calls@) == openai_calls(a@.subrange(0, i as int)),
                    decreases a.len() - i,
                {
                    proof {
                        assert(a@.subrange(0, i + 1).drop_last() =~= a@.subrange(0, i as int));
                    }
                    match openai_call_exec(&a[i]) {
                        Some(c) => {
                            let ghost before = tool_calls@;
                            let ghost cv = call_view(c);
                            tool_calls.push(c);
                            assert(calls_view(tool_calls@) =~= calls_view(before).push(cv));
                        },
                        None => {},
                    }
                    i = i + 1;
                }
                assert(a@.subrange(0, a.len() as int) =~= a@);
            },
            None => {
                assert(calls_view(tool_calls@) =~= Seq::<CallView>::empty());
            },
        },
        None => {
            assert(calls_view(tool_calls@) =~= Seq::<CallView>::empty());
        },
    }
    let usage_doc = raw.get("usage");
    let usage = TokenUsage {
        prompt_tokens: u32_or_zero_exec(get_in(usage_doc, "prompt_tokens")),
        completion_tokens: u32_or_zero_exec(get_in(usage_doc, "completion_tokens")),
        total_tokens: u32_or_zero_exec(get_in(usage_doc, "total_tokens")),
    };
    ChatResponse { content, tool_calls, usage, raw }
}

/// The OpenAI adapter: endpoint and response format of the chat-completions API.
#[derive(Debug, Default)]
pub struct OpenAIAdapter;

/// A string value.
pub open spec fn jstr(s: Seq<char>) -> JsonView {
    JsonView::Str(s)
}

/// A tool call of an assistant message: id, `function` type, and name and arguments text.
pub open spec fn openai_call_json(c: ToolCall) -> JsonView {
    JsonView::Object(
        seq![
            ("id"@, jstr(c.id@)),
            ("type"@, jstr("function"@)),
            ("function"@, JsonView::Object(seq![("name"@, jstr(c.name@)), ("arguments"@, jstr(c.arguments@))])),
        ],
    )
}

/// A message in the chat-completions format; none for an assistant message without
/// text and tool calls.
pub open spec fn openai_message_json(m: Message) -> Option<JsonView> {
    match m {
        Message::System { content } => Some(JsonView::Object(seq![("role"@, jstr("system"@)), ("content"@, jstr(flat_text(content@)))])),
        Message::User { content } => Some(JsonView::Object(seq![("role"@, jstr("user"@)), ("content"@, jstr(content@))])),
        Message::Assistant { content, tool_calls } => if content@.len() == 0 && tool_calls@.len() == 0 {
            None
        } else {
            Some(
                JsonView::Object(
                    seq![("role"@, jstr("assistant"@))] + (if content@.len() > 0 {
                        seq![("content"@, jstr(content@))]
                    } else {
                        Seq::empty()
                    }) + (if tool_calls@.len() > 0 {
                        seq![("tool_calls"@, JsonView::Array(tool_calls@.map_values(|c: ToolCall| openai_call_json(c))))]
                    } else {
                        Seq::empty()
                    }),
                ),
            )
        },
        Message::Tool { tool_call_id, content, is_error } => Some(
            JsonView::Object(seq![("role"@, jstr("tool"@)), ("tool_call_id"@, jstr(tool_call_id@)), ("content"@, jstr(content@))]),
        ),
    }
}

/// The messages in the chat-completions format, in order, without those that have none.
pub open spec fn openai_messages(ms: Seq<Message>) -> Seq<JsonView>
    decreases ms.len(),
{
    if ms.len() == 0 {
        Seq::empty()
    } else {
        match openai_message_json(ms.last()) {
            Some(j) => openai_messages(ms.drop_last()).push(j),
            None => openai_messages(ms.drop_last()),
        }
    }
}

/// A tool offered to the model: `function` type, and name, description and parameter schema.
pub open spec fn openai_tool_json(t: ToolDefinition) -> JsonView {
    JsonView::Object(
        seq![
            ("type"@, jstr("function"@)),
            (
                "function"@,
                JsonView::Object(
                    seq![("name"@, jstr(t.name@)), ("description"@, jstr(t.description@)), ("parameters"@, JsonView::Raw(t.parameters@))],
                ),
            ),
        ],
    )
}

/// The text of the request temperature, `default` when absent.
pub open spec fn temperature_text_or(t: Option<JsonNumber>, default: Seq<char>) -> Seq<char> {
    match t {
        Some(n) => number_text(n),
        None => default,
    }
}

/// The text of the request temperature: 0.0 when absent.
pub open spec fn temperature_text(t: Option<JsonNumber>) -> Seq<char> {
    temperature_text_or(t, "0.0"@)
}

/// The model of a request: its own, or the default when it names none.
pub open spec fn request_model(r: ChatRequest, default_model: Seq<char>) -> Seq<char> {
    if r.model@.len() == 0 { default_model } else { r.model@ }
}

/// The messages of a chat-completions request: those of the request, then the prefill
/// as an assistant message when there is one.
pub open spec fn openai_request_messages(r: ChatRequest) -> Seq<JsonView> {
    openai_messages(r.messages@) + match r.prefill {
        Some(p) => seq![JsonView::Object(seq![("role"@, jstr("assistant"@)), ("content"@, jstr(p@))])],
        None => Seq::empty(),
    }
}

/// The `tools` member, when the request has tools.
pub open spec fn openai_tools_part(r: ChatRequest) -> Seq<(Seq<char>, JsonView)> {
    match r.tools {
        Some(t) => seq![("tools"@, JsonView::Array(t@.map_values(|c: CachedTool| openai_tool_json(c.definition))))],
        None => Seq::empty(),
    }
}

/// The `tool_choice` member, when the request has one: a named function, or `required`.
pub open spec fn openai_choice_part(r: ChatRequest) -> Seq<(Seq<char>, JsonView)> {
    match r.tool_choice {
        Some(ToolChoice::Tool { name }) => seq![
            ("tool_choice"@, JsonView::Object(seq![("type"@, jstr("function"@)), ("function"@, JsonView::Object(seq![("name"@, jstr(name@))]))])),
        ],
        Some(ToolChoice::Any) => seq![("tool_choice"@, jstr("required"@))],
        None => Seq::empty(),
    }
}

/// The `stop` member, when the request has stop sequences.
pub open spec fn stop_part(r: ChatRequest) -> Seq<(Seq<char>, JsonView)> {
    match r.stop_sequences {
        Some(s) => seq![("stop"@, JsonView::Array(s@.map_values(|x: String| jstr(x@))))],
        None => Seq::empty(),
    }
}

/// The body of a chat-completions request: model, messages, temperature, then the
/// tools, tool choice and stop sequences when the request has them.
pub open spec fn openai_body(r: ChatRequest, default_model: Seq<char>) -> JsonView {
    JsonView::Object(
        seq![
            ("model"@, jstr(request_model(r, default_model))),
            ("messages"@, JsonView::Array(openai_request_messages(r))),
            ("temperature"@, JsonView::Number(temperature_text(r.temperature))),
        ] + openai_tools_part(r) + openai_choice_part(r) + stop_part(r),
    )
}

/// An optional value by its view.
pub open spec fn opt_view(o: Option<Json>) -> Option<JsonView> {
    match o {
        Some(j) => Some(json_view(j)),
        None => None,
    }
}

/// A copy of a number.
pub fn copy_number(n: &JsonNumber) -> (r: JsonNumber)
    ensures
        number_text(r) == number_text(*n),
{
    match n {
        JsonNumber::PosInt(x) => JsonNumber::PosInt(*x),
        JsonNumber::NegInt(x) => JsonNumber::NegInt(*x),
        JsonNumber::Float(t) => JsonNumber::Float(owned(t.as_str())),
    }
}

/// The temperature value of a request, written `default` when absent.
pub fn temperature_json_or(t: &Option<JsonNumber>, default: &str) -> (j: Json)
    ensures
        json_view(j) == JsonView::Number(temperature_text_or(*t, default@)),
{
    match t {
        Some(n) => Json::Number(copy_number(n)),
        None => Json::Number(JsonNumber::Float(owned(default))),
    }
}

/// The temperature value of a request, 0.0 when absent.
pub fn temperature_json(t: &Option<JsonNumber>) -> (j: Json)
    ensures
        json_view(j) == JsonView::Number(temperature_text(*t)),
{
    temperature_json_or(t, "0.0")
}

/// Strings as an array of string values.
pub fn strings_json(v: &Vec<String>) -> (j: Json)
    ensures
        json_view(j) == JsonView::Array(v@.map_values(|x: String| jstr(x@))),
{
    let mut a: Vec<Json> = Vec::new();
    let mut i: usize = 0;
    while i < v.len()
        invariant
            i <= v.len(),
            items_view(a@) =~= v@.subrange(0, i as int).map_values(|x: String| jstr(x@)),
        decreases v.len() - i,
    {
        push_item(&mut a, str_json(v[i].as_str()));
        i = i + 1;
        assert(items_view(a@) =~= v@.subrange(0, i as int).map_values(|x: String| jstr(x@)));
    }
    assert(v@.subrange(0, v.len() as int) =~= v@);
    array(a)
}

/// A tool call in the chat-completions format.
pub(crate) fn call_to_openai(c: &ToolCall) -> (j: Json)
    ensures
        json_view(j) == openai_call_json(*c),
{
    let mut f: Vec<(String, Json)> = Vec::new();
    push_member(&mut f, "name", str_json(c.name.as_str()));
    push_member(&mut f, "arguments", str_json(c.arguments.as_str()));
    let mut m: Vec<(String, Json)> = Vec::new();
    push_member(&mut m, "id", str_json(c.id.as_str()));
    push_member(&mut m, "type", str_json("function"));
    push_member(&mut m, "function", object(f));
    let j = object(m);
    assert(members_view(f@) =~= seq![("name"@, jstr(c.name@)), ("arguments"@, jstr(c.arguments@))]);
    assert(members_view(m@) =~= seq![
        ("id"@, jstr(c.id@)),
        ("type"@, jstr("function"@)),
        ("function"@, JsonView::Object(seq![("name"@, jstr(c.name@)), ("arguments"@, jstr(c.arguments@))])),
    ]);
    j
}

/// A tool in the chat-completions format.
pub(crate) fn tool_to_openai(t: &ToolDefinition) -> (j: Json)
    ensures
        json_view(j) == openai_tool_json(*t),
{
    let mut f: Vec<(String, Json)> = Vec::new();
    push_member(&mut f, "name", str_json(t.name.as_str()));
    push_member(&mut f, "description", str_json(t.description.as_str()));
    push_member(&mut f, "parameters", Json::Raw(owned(t.parameters.as_str())));
    let mut m: Vec<(String, Json)> = Vec::new();
    push_member(&mut m, "type", str_json("function"));
    push_member(&mut m, "function", object(f));
    let j = object(m);
    assert(members_view(f@) =~= seq![("name"@, jstr(t.name@)), ("description"@, jstr(t.description@)), ("parameters"@, JsonView::Raw(t.parameters@))]);
    assert(members_view(m@) =~= seq![
        ("type"@, jstr("function"@)),
        (
            "function"@,
            JsonView::Object(
                seq![("name"@, jstr(t.name@)), ("description"@, jstr(t.description@)), ("parameters"@, JsonView::Raw(t.parameters@))],
            ),
        ),
    ]);
    j
}

/// An object `{"role": role, "content": content}`.
pub(crate) fn role_content(role: &str, content: &str) -> (j: Json)
    ensures
        json_view(j) == JsonView::Object(seq![("role"@, jstr(role@)), ("content"@, jstr(content@))]),
{
    let mut m: Vec<(String, Json)> = Vec::new();
    push_member(&mut m, "role", str_json(role));
    push_member(&mut m, "content", str_json(content));
    assert(members_view(m@) =~= seq![("role"@, jstr(role@)), ("content"@, jstr(content@))]);
    object(m)
}

impl OpenAIAdapter {
    /// A message in the chat-completions format; `None` for an assistant message with
    /// neither text nor tool calls.
    pub fn message_to_openai(&self, msg: &Message) -> (r: Option<Json>)
        ensures
            opt_view(r) == openai_message_json(*msg),
    {
        match msg {
            Message::System { content } => Some(role_content("system", flatten_text(content).as_str())),
            Message::User { content } => Some(role_content("user", content.as_str())),
            Message::Assistant { content, tool_calls } => {
                if content.as_str().is_empty() && tool_calls.len() == 0 {
                    return None;
                }
                let mut m: Vec<(String, Json)> = Vec::new();
                push_member(&mut m, "role", str_json("assistant"));
                let ghost head = members_view(m@);
                if !content.as_str().is_empty() {
                    push_member(&mut m, "content", str_json(content.as_str()));
                }
                let ghost mid = members_view(m@);
                if tool_calls.len() > 0 {
                    let mut calls: Vec<Json> = Vec::new();
                    let mut i: usize = 0;
                    while i < tool_calls.len()
                        invariant
                            i <= tool_calls.len(),
                            items_view(calls@) =~= tool_calls@.subrange(0, i as int).map_values(|c: ToolCall| openai_call_json(c)),
                        decreases tool_calls.len() - i,
                    {
                        push_item(&mut calls, call_to_openai(&tool_calls[i]));
                        i = i + 1;
                        assert(items_view(calls@) =~= tool_calls@.subrange(0, i as int).map_values(|c: ToolCall| openai_call_json(c)));
                    }
                    assert(tool_calls@.subrange(0, tool_calls.len() as int) =~= tool_calls@);
                    push_member(&mut m, "tool_calls", array(calls));
                }
                proof {
                    assert(head =~= seq![("role"@, jstr("assistant"@))]);
                    if content@.len() > 0 {
                        assert(mid =~= head + seq![("content"@, jstr(content@))]);
                    } else {
                        assert(mid =~= head + Seq::<(Seq<char>, JsonView)>::empty());
                    }
                }
                let j = object(m);
                assert(members_view(m@) =~= seq![("role"@, jstr("assistant"@))] + (if content@.len() > 0 {
                    seq![("content"@, jstr(content@))]
                } else {
                    Seq::empty()
                }) + (if tool_calls@.len() > 0 {
                    seq![("tool_calls"@, JsonView::Array(tool_calls@.map_values(|c: ToolCall| openai_call_json(c))))]
                } else {
                    Seq::empty()
                }));
                Some(j)
            },
            Message::Tool { tool_call_id, content, is_error: _ } => {
                let mut m: Vec<(String, Json)> = Vec::new();
                push_member(&mut m, "role", str_json("tool"));
                push_member(&mut m, "tool_call_id", str_json(tool_call_id.as_str()));
                push_member(&mut m, "content", str_json(content.as_str()));
                assert(members_view(m@) =~= seq![("role"@, jstr("tool"@)), ("tool_call_id"@, jstr(tool_call_id@)), ("content"@, jstr(content@))]);
                Some(object(m))
            },
        }
    }

    /// The body of a chat-completions request; `default_model` when the request names
    /// no model.
    pub fn build_request(&self, request: &ChatRequest, default_model: &str) -> (j: Json)
        ensures
            json_view(j) == openai_body(*request, default_model@),
    {
        let model = if request.model.as_str().is_empty() {
            str_json(default_model)
        } else {
            str_json(request.model.as_str())
        };
        let mut msgs: Vec<Json> = Vec::new();
        let mut i: usize = 0;
        while i < request.messages.len()
            invariant
                i <= request.messages.len(),
                items_view(msgs@) == openai_messages(request.messages@.subrange(0, i as int)),
            decreases request.messages.len() - i,
        {
            proof {
                let t = request.messages@.subrange(0, i + 1);
                assert(t.drop_last() =~= request.messages@.subrange(0, i as int));
                assert(t.last() == request.messages@[i as int]);
            }
            match self.message_to_openai(&request.messages[i]) {
                Some(j) => push_item(&mut msgs, j),
                None => {},
            }
            i = i + 1;
        }
        assert(request.messages@.subrange(0, request.messages.len() as int) =~= request.messages@);
        match &request.prefill {
            Some(p) => push_item(&mut msgs, role_content("assistant", p.as_str())),
            None => {},
        }
        assert(items_view(msgs@) =~= openai_request_messages(*request));
        let mut body: Vec<(String, Json)> = Vec::new();
        push_member(&mut body, "model", model);
        push_member(&mut body, "messages", array(msgs));
        push_member(&mut body, "temperature", temperature_json(&request.temperature));
        let ghost head = members_view(body@);
        match &request.tools {
            Some(t) => {
                let mut ts: Vec<Json> = Vec::new();
                let mut k: usize = 0;
                while k < t.len()
                    invariant
                        k <= t.len(),
                        items_view(ts@) =~= t@.subrange(0, k as int).map_values(|c: CachedTool| openai_tool_json(c.definition)),
                    decreases t.len() - k,
                {
                    push_item(&mut ts, tool_to_openai(&t[k].definition));
                    k = k + 1;
                    assert(items_view(ts@) =~= t@.subrange(0, k as int).map_values(|c: CachedTool| openai_tool_json(c.definition)));
                }
                assert(t@.subrange(0, t.len() as int) =~= t@);
                push_member(&mut body, "tools", array(ts));
            },
            None => {},
        }
        assert(members_view(body@) =~= head + openai_tools_part(*request));
        let ghost with_tools = members_view(body@);
        match &request.tool_choice {
            Some(ToolChoice::Tool { name }) => {
                let mut f: Vec<(String, Json)> = Vec::new();
                push_member(&mut f, "name", str_json(name.as_str()));
                let mut c: Vec<(String, Json)> = Vec::new();
                push_member(&mut c, "type", str_json("function"));
                push_member(&mut c, "function", object(f));
                assert(members_view(f@) =~= seq![("name"@, jstr(name@))]);
                assert(members_view(c@) =~= seq![("type"@, jstr("function"@)), ("function"@, JsonView::Object(seq![("name"@, jstr(name@))]))]);
                push_member(&mut body, "tool_choice", object(c));
            },
            Some(ToolChoice::Any) => {
                push_member(&mut body, "tool_choice", str_json("required"));
            },
            None => {},
        }
        assert(members_view(body@) =~= with_tools + openai_choice_part(*request));
        let ghost with_choice = members_view(body@);
        match &request.stop_sequences {
            Some(st) => push_member(&mut body, "stop", strings_json(st)),
            None => {},
        }
        assert(members_view(body@) =~= with_choice + stop_part(*request));
        assert(head =~= seq![
            ("model"@, jstr(request_model(*request, default_model@))),
            ("messages"@, JsonView::Array(openai_request_messages(*request))),
            ("temperature"@, JsonView::Number(temperature_text(request.temperature))),
        ]);
        assert(members_view(body@) =~= head + openai_tools_part(*request) + openai_choice_part(*request) + stop_part(*request));
        object(body)
    }

    /// The headers of a request: the API key as a bearer token.
    pub fn headers(&self, api_key: &str) -> (h: Vec<(String, String)>)
        ensures
            h@.len() == 1,
            h@[0].0@ == "Authorization"@,
            h@[0].1@ == "Bearer "@ + api_key@,
    {
        vec![(owned("Authorization"), concat2("Bearer ", api_key))]
    }

    /// `openai`.
    pub fn id(&self) -> (s: &'static str)
        ensures
            s@ == "openai"@,
    {
        "openai"
    }

    /// The chat-completions URL under `base`.
    pub fn endpoint(&self, base: &str) -> (s: String)
        ensures
            s@ == base@ + "/v1/chat/completions"@,
    {
        concat2(base, "/v1/chat/completions")
    }

    /// Reads a response; never fails.
    pub fn parse_response(&self, raw: Json) -> (r: Result<ChatResponse, LlmError>)
        ensures
            r matches Ok(c) && c.content@ == openai_content(raw) && calls_view(c.tool_calls@) == openai_tool_calls(raw)
                && c.usage == openai_usage(raw) && c.raw == raw,
    {
        Ok(parse_openai_response(raw))
    }
}

} // verus!
