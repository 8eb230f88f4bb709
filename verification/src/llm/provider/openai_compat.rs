//! OpenAI-compatible APIs (NVIDIA, DeepSeek, LLaMA servers, vLLM): the chat-completions
//! format with a 0.6 default temperature, system and user messages without text left out, tools
//! without a name left out, and each API's own endpoint path.
use vstd::prelude::*;
use crate::json::{array, items_view, json_view, members_view, object, push_item, push_member, str_json, Json, JsonView};
use crate::llm::prompt_builder::CachedTool;
use crate::llm::{flat_text, flatten_text, ChatRequest, ChatResponse, LlmError, Message};
use crate::text::{concat2, owned, str_eq};
use super::openai::{
    jstr, openai_choice_part, openai_message_json, openai_tool_json, opt_view, parse_openai_response, request_model,
    role_content, stop_part, strings_json, temperature_json_or, temperature_text_or, tool_to_openai,
    OpenAIAdapter, openai_content, openai_tool_calls, openai_usage, calls_view,
};
use crate::llm::ToolChoice;

verus! {

/// The temperature these APIs are sent when the request has none: 0.6 as an `f32`,
/// written as the `f64` it widens to.
pub open spec fn compat_default_temperature() -> Seq<char> {
    "0.6000000238418579"@
}

/// A message in the compatible format: as in the chat-completions format, except that a
/// system or user message with empty text is left out.
pub open spec fn compat_message_json(m: Message) -> Option<JsonView> {
    match m {
        Message::System { content } => if flat_text(content@).len() == 0 { None } else { openai_message_json(m) },
        Message::User { content } => if content@.len() == 0 { None } else { openai_message_json(m) },
        _ => openai_message_json(m),
    }
}

/// The messages in the compatible format, in order, without those that have none.
pub open spec fn compat_messages(ms: Seq<Message>) -> Seq<JsonView>
    decreases ms.len(),
{
    if ms.len() == 0 {
        Seq::empty()
    } else {
        match compat_message_json(ms.last()) {
            Some(j) => compat_messages(ms.drop_last()).push(j),
            None => compat_messages(ms.drop_last()),
        }
    }
}

/// The tools with a name, in the chat-completions format.
pub open spec fn compat_tools(ts: Seq<CachedTool>) -> Seq<JsonView>
    decreases ts.len(),
{
    if ts.len() == 0 {
        Seq::empty()
    } else if ts.last().definition.name@.len() == 0 {
        compat_tools(ts.drop_last())
    } else {
        compat_tools(ts.drop_last()).push(openai_tool_json(ts.last().definition))
    }
}

/// The messages of a request: those of the request, then the prefill as an assistant
/// message when there is one.
pub open spec fn compat_request_messages(r: ChatRequest) -> Seq<JsonView> {
    compat_messages(r.messages@) + match r.prefill {
        Some(p) => seq![JsonView::Object(seq![("role"@, jstr("assistant"@)), ("content"@, jstr(p@))])],
        None => Seq::empty(),
    }
}

/// The `tools` member, when the request has tools.
pub open spec fn compat_tools_part(r: ChatRequest) -> Seq<(Seq<char>, JsonView)> {
    match r.tools {
        Some(t) => seq![("tools"@, JsonView::Array(compat_tools(t@)))],
        None => Seq::empty(),
    }
}

/// The body of a compatible chat request: model, messages, temperature (0.6 when absent),
/// then the tools, tool choice and stop sequences when the request has them.
pub open spec fn compat_body(r: ChatRequest, default_model: Seq<char>) -> JsonView {
    JsonView::Object(
        seq![
            ("model"@, jstr(request_model(r, default_model))),
            ("messages"@, JsonView::Array(compat_request_messages(r))),
            ("temperature"@, JsonView::Number(temperature_text_or(r.temperature, compat_default_temperature()))),
        ] + compat_tools_part(r) + openai_choice_part(r) + stop_part(r),
    )
}

/// An OpenAI-compatible API: its id and the path of its chat endpoint.
pub struct OpenAICompatAdapter {
    id: String,
    endpoint_path: String,
}

impl OpenAICompatAdapter {
    /// The id of the API.
    pub closed spec fn api_id(&self) -> Seq<char> {
        self.id@
    }

    /// The path of the chat endpoint.
    pub closed spec fn path(&self) -> Seq<char> {
        self.endpoint_path@
    }

    /// NVIDIA AI Foundation inference: `nvidia`, `/v1/chat/completions`.
    pub fn nvidia() -> (a: OpenAICompatAdapter)
        ensures
            a.api_id() == "nvidia"@,
            a.path() == "/v1/chat/completions"@,
    {
        OpenAICompatAdapter { id: owned("nvidia"), endpoint_path: owned("/v1/chat/completions") }
    }

    /// DeepSeek: `deepseek`, `/chat/completions` (no `/v1`).
    pub fn deepseek() -> (a: OpenAICompatAdapter)
        ensures
            a.api_id() == "deepseek"@,
            a.path() == "/chat/completions"@,
    {
        OpenAICompatAdapter { id: owned("deepseek"), endpoint_path: owned("/chat/completions") }
    }

    /// A llama.cpp server: `llama`, `/v1/chat/completions`.
    pub fn llama() -> (a: OpenAICompatAdapter)
        ensures
            a.api_id() == "llama"@,
            a.path() == "/v1/chat/completions"@,
    {
        OpenAICompatAdapter { id: owned("llama"), endpoint_path: owned("/v1/chat/completions") }
    }

    /// A vLLM server: `vllm`, `/v1/chat/completions`.
    pub fn vllm() -> (a: OpenAICompatAdapter)
        ensures
            a.api_id() == "vllm"@,
            a.path() == "/v1/chat/completions"@,
    {
        OpenAICompatAdapter { id: owned("vllm"), endpoint_path: owned("/v1/chat/completions") }
    }

    /// The compatible API with the given id, if it is one of them.
    pub fn for_id(id: &str) -> (a: Option<OpenAICompatAdapter>)
        ensures
            match a {
                Some(x) => x.api_id() == id@ && (x.path() == (if id@ == "deepseek"@ {
                    "/chat/completions"@
                } else {
                    "/v1/chat/completions"@
                })),
                None => id@ != "nvidia"@ && id@ != "deepseek"@ && id@ != "llama"@ && id@ != "vllm"@,
            },
    {
        proof {
            reveal_strlit("nvidia");
            reveal_strlit("deepseek");
            reveal_strlit("llama");
            reveal_strlit("vllm");
        }
        if str_eq(id, "nvidia") {
            Some(OpenAICompatAdapter::nvidia())
        } else if str_eq(id, "deepseek") {
            Some(OpenAICompatAdapter::deepseek())
        } else if str_eq(id, "llama") {
            Some(OpenAICompatAdapter::llama())
        } else if str_eq(id, "vllm") {
            Some(OpenAICompatAdapter::vllm())
        } else {
            None
        }
    }

    /// The id of the API.
    pub fn id(&self) -> (s: &str)
        ensures
            s@ == self.api_id(),
    {
        self.id.as_str()
    }

    /// The chat URL under `base`.
    pub fn endpoint(&self, base: &str) -> (s: String)
        ensures
            s@ == base@ + self.path(),
    {
        concat2(base, self.endpoint_path.as_str())
    }

    /// The headers of a request: the API key as a bearer token.
    pub fn headers(&self, api_key: &str) -> (h: Vec<(String, String)>)
        ensures
            h@.len() == 1,
            h@[0].0@ == "Authorization"@,
            h@[0].1@ == "Bearer "@ + api_key@,
    {
        OpenAIAdapter.headers(api_key)
    }

    /// A message in the compatible format; `None` for an empty system or user message and
    /// for an assistant message with neither text nor tool calls.
    pub fn message_to_openai(&self, msg: &Message) -> (r: Option<Json>)
        ensures
            opt_view(r) == compat_message_json(*msg),
    {
        match msg {
            Message::System { content } => {
                let text = flatten_text(content);
                if text.as_str().is_empty() {
                    None
                } else {
                    Some(role_content("system", text.as_str()))
                }
            },
            Message::User { content } => {
                if content.as_str().is_empty() {
                    None
                } else {
                    Some(role_content("user", content.as_str()))
                }
            },
            _ => OpenAIAdapter.message_to_openai(msg),
        }
    }

    /// The body of a compatible chat request; `default_model` when the request names no
    /// model.
    pub fn build_request(&self, request: &ChatRequest, default_model: &str) -> (j: Json)
        ensures
            json_view(j) == compat_body(*request, default_model@),
    {
        let model = if request.model.as_str().is_empty() {
            str_json(default_model)
        } else {
            str_json(request.model.as_str())
        };
        let mut msgs: Vec<Json> = Vec::new();
        let mut i: usize = 0;
        while i < request.messages.len()
            invariant
                i <= request.messages.len(),
                items_view(msgs@) == compat_messages(request.messages@.subrange(0, i as int)),
            decreases request.messages.len() - i,
        {
            proof {
                let t = request.messages@.subrange(0, i + 1);
                assert(t.drop_last() =~= request.messages@.subrange(0, i as int));
                assert(t.last() == request.messages@[i as int]);
            }
            match self.message_to_openai(&request.messages[i]) {
                Some(j) => push_item(&mut msgs, j),
                None => {},
            }
            i = i + 1;
        }
        assert(request.messages@.subrange(0, request.messages.len() as int) =~= request.messages@);
        match &request.prefill {
            Some(p) => push_item(&mut msgs, role_content("assistant", p.as_str())),
            None => {},
        }
        assert(items_view(msgs@) =~= compat_request_messages(*request));
        let mut body: Vec<(String, Json)> = Vec::new();
        push_member(&mut body, "model", model);
        push_member(&mut body, "messages", array(msgs));
        push_member(&mut body, "temperature", temperature_json_or(&request.temperature, "0.6000000238418579"));
        let ghost head = members_view(body@);
        match &request.tools {
            Some(t) => {
                let mut ts: Vec<Json> = Vec::new();
                let mut k: usize = 0;
                while k < t.len()
                    invariant
                        k <= t.len(),
                        items_view(ts@) == compat_tools(t@.subrange(0, k as int)),
                    decreases t.len() - k,
                {
                    proof {
                        let s = t@.subrange(0, k + 1);
                        assert(s.drop_last() =~= t@.subrange(0, k as int));
                        assert(s.last() == t@[k as int]);
                    }
                    if !t[k].definition.name.as_str().is_empty() {
                        push_item(&mut ts, tool_to_openai(&t[k].definition));
                    }
                    k = k + 1;
                }
                assert(t@.subrange(0, t.len() as int) =~= t@);
                push_member(&mut body, "tools", array(ts));
            },
            None => {},
        }
        assert(members_view(body@) =~= head + compat_tools_part(*request));
        let ghost with_tools = members_view(body@);
        match &request.tool_choice {
            Some(ToolChoice::Tool { name }) => {
                let mut f: Vec<(String, Json)> = Vec::new();
                push_member(&mut f, "name", str_json(name.as_str()));
                let mut c: Vec<(String, Json)> = Vec::new();
                push_member(&mut c, "type", str_json("function"));
                push_member(&mut c, "function", object(f));
                assert(members_view(f@) =~= seq![("name"@, jstr(name@))]);
                assert(members_view(c@) =~= seq![("type"@, jstr("function"@)), ("function"@, JsonView::Object(seq![("name"@, jstr(name@))]))]);
                push_member(&mut body, "tool_choice", object(c));
            },
            Some(ToolChoice::Any) => {
                push_member(&mut body, "tool_choice", str_json("required"));
            },
            None => {},
        }
        assert(members_view(body@) =~= with_tools + openai_choice_part(*request));
        let ghost with_choice = members_view(body@);
        match &request.stop_sequences {
            Some(st) => push_member(&mut body, "stop", strings_json(st)),
            None => {},
        }
        assert(members_view(body@) =~= with_choice + stop_part(*request));
        assert(head =~= seq![
            ("model"@, jstr(request_model(*request, default_model@))),
            ("messages"@, JsonView::Array(compat_request_messages(*request))),
            ("temperature"@, JsonView::Number(temperature_text_or(request.temperature, compat_default_temperature()))),
        ]);
        assert(members_view(body@) =~= head + compat_tools_part(*request) + openai_choice_part(*request) + stop_part(*request));
        object(body)
    }

    /// Reads a response as the chat-completions format is read; never fails.
    pub fn parse_response(&self, raw: Json) -> (r: Result<ChatResponse, LlmError>)
        ensures
            r matches Ok(c) && c.content@ == openai_content(raw) && calls_view(c.tool_calls@) == openai_tool_calls(raw)
                && c.usage == openai_usage(raw) && c.raw == raw,
    {
        Ok(parse_openai_response(raw))
    }
}

} // verus!
