use devops_agent::json::{to_json_text, Json, JsonNumber};
use devops_agent::llm::prompt_builder::CachedTool;
use devops_agent::llm::provider::anthropic::{
    http_outcome, parse_anthropic_response, require_api_key, response_outcome, AnthropicAdapter,
};
use devops_agent::llm::provider::openai::{parse_openai_response, OpenAIAdapter};
use devops_agent::llm::provider::openai_compat::OpenAICompatAdapter;
use devops_agent::llm::router::{ModelRouter, ModelRouterConfig, ProviderModels, RouteTarget, TaskLevel};
use devops_agent::llm::tool_use_loop::tool_registry::ToolDefinition;
use devops_agent::llm::tool_use_loop::ToolCall;
use devops_agent::llm::provider::base::BaseConfig;
use devops_agent::llm::{system_text, ChatRequest, ChatResponse, ChatResponseExt, LlmError, Message, TextBlock, ToolChoice};
use devops_agent::token::tracker::TokenUsage;

fn s(x: &str) -> Json {
    Json::Str(x.to_string())
}
fn n(x: u64) -> Json {
    Json::Number(JsonNumber::PosInt(x))
}
fn obj(members: Vec<(&str, Json)>) -> Json {
    Json::Object(members.into_iter().map(|(k, v)| (k.to_string(), v)).collect())
}

#[test]
fn openai_response_fields() {
    let call_ok = obj(vec![("id", s("c1")), ("function", obj(vec![("name", s("read")), ("arguments", s("{\"p\":1}"))]))]);
    let call_bad = obj(vec![("id", s("c2")), ("function", obj(vec![("name", s("x")), ("arguments", s("not json"))]))]);
    let raw = obj(vec![
        ("choices", Json::Array(vec![obj(vec![("message", obj(vec![("content", s("hello")), ("tool_calls", Json::Array(vec![call_ok, call_bad]))]))])])),
        ("usage", obj(vec![("prompt_tokens", n(5)), ("completion_tokens", n(7)), ("total_tokens", n(12))])),
    ]);
    let r = parse_openai_response(raw);
    assert_eq!(r.content, "hello");
    assert_eq!(r.tool_calls.len(), 1);
    assert_eq!(r.tool_calls[0].name, "read");
    assert_eq!(r.usage.total_tokens, 12);
    assert_eq!(OpenAIAdapter.endpoint("https://api"), "https://api/v1/chat/completions");
}

#[test]
fn anthropic_response_fields() {
    let raw = obj(vec![
        ("content", Json::Array(vec![
            obj(vec![("type", s("text")), ("text", s("a"))]),
            obj(vec![("type", s("tool_use")), ("id", s("t1")), ("name", s("bash")), ("input", obj(vec![("cmd", s("ls \"x\""))]))]),
            obj(vec![("type", s("text")), ("text", s("b"))]),
        ])),
        ("usage", obj(vec![("input_tokens", n(3)), ("output_tokens", n(4))])),
    ]);
    let r = parse_anthropic_response(raw);
    assert_eq!(r.content, "a\nb");
    assert_eq!(r.tool_calls[0].arguments, "{\"cmd\":\"ls \\\"x\\\"\"}");
    assert_eq!(r.usage.total_tokens, 7);
}

#[test]
fn json_text_is_compact() {
    let v = obj(vec![("a", Json::Array(vec![n(1), Json::Number(JsonNumber::NegInt(-2)), Json::Bool(true), Json::Null])), ("b", s("x\ny"))]);
    assert_eq!(to_json_text(&v), "{\"a\":[1,-2,true,null],\"b\":\"x\\ny\"}");
}

#[test]
fn http_outcomes() {
    assert!(matches!(http_outcome(500, "oops".into(), None, "OpenAI"), Err(LlmError::ApiError { status: 500, .. })));
    match http_outcome(200, "x".into(), Some("bad".into()), "OpenAI") {
        Err(LlmError::ParseError { detail }) => assert_eq!(detail, "Invalid JSON from OpenAI: bad"),
        _ => panic!("expected a parse error"),
    }
    assert!(http_outcome(200, "{}".into(), None, "OpenAI").is_ok());
    assert!(matches!(require_api_key("", "openai"), Err(LlmError::MissingApiKey { .. })));
}

fn models(flash: Option<&str>, pro: Option<&str>) -> ProviderModels {
    ProviderModels { model_flash: flash.map(|x| x.into()), model_pro: pro.map(|x| x.into()), default_model: flash.map(|x| x.into()) }
}

#[test]
fn router_classifies_and_resolves() {
    let mut r = ModelRouter::new(ModelRouterConfig::default());
    assert_eq!(r.classify_task("hello"), TaskLevel::L1);
    assert_eq!(r.classify_task("请分析构建"), TaskLevel::L2);
    assert_eq!(r.classify_task(&"x".repeat(500)), TaskLevel::L2);
    assert!(matches!(r.resolve(TaskLevel::L1), Err(LlmError::InvalidRequest { .. })));
    r.register_provider("a".into(), models(None, Some("pro-a")));
    r.register_provider("b".into(), models(Some("flash-b"), None));
    assert_eq!(r.resolve(TaskLevel::L1).ok(), Some((1, "flash-b".to_string())));
    assert_eq!(r.resolve(TaskLevel::L2).ok(), Some((0, "pro-a".to_string())));
    assert_eq!(r.find_provider_by_model("flash"), Some(1));
    assert_eq!(r.find_provider_by_model("zzz"), Some(0));
    let msgs = vec![Message::User { content: "look at the log".into() }];
    match r.dispatch("", &msgs) {
        Ok((RouteTarget::ByLevel(i), Some(m))) => {
            assert_eq!(i, 0);
            assert_eq!(m, "pro-a");
        }
        _ => panic!("expected a level route"),
    }
    assert_eq!(ModelRouter::extract_prompt(&msgs), "look at the log");
}

#[test]
fn provider_models_select() {
    let m = models(Some("f"), None);
    assert_eq!(m.select(TaskLevel::L1).ok(), Some("f".to_string()));
    assert_eq!(m.select(TaskLevel::L2).ok(), Some("f".to_string()));
    match ProviderModels::default().select(TaskLevel::L2) {
        Err(LlmError::InvalidRequest { message }) => assert_eq!(message, "no model configured for L2"),
        _ => panic!("expected an error"),
    }
}

fn conversation() -> Vec<Message> {
    vec![
        system_text("s"),
        Message::User { content: "u".into() },
        Message::Assistant { content: String::new(), tool_calls: vec![] },
        Message::Assistant {
            content: "a".into(),
            tool_calls: vec![ToolCall { id: "c1".into(), name: "f".into(), arguments: "{\"x\":1}".into() }],
        },
        Message::Tool { tool_call_id: "c1".into(), content: "r".into(), is_error: false },
    ]
}

fn one_tool() -> Option<Vec<CachedTool>> {
    Some(vec![CachedTool {
        definition: ToolDefinition { name: "t".into(), description: "d".into(), parameters: "{}".into() },
        cache_breakpoint: true,
    }])
}

#[test]
fn openai_request_body_exact() {
    let req = ChatRequest {
        model: String::new(),
        messages: conversation(),
        tools: one_tool(),
        temperature: None,
        tool_choice: Some(ToolChoice::Any),
        stop_sequences: Some(vec!["END".into()]),
        prefill: Some("p".into()),
    };
    let body = to_json_text(&OpenAIAdapter.build_request(&req, "gpt"));
    assert_eq!(
        body,
        [
            "{\"model\":\"gpt\",\"messages\":[",
            "{\"role\":\"system\",\"content\":\"s\"},",
            "{\"role\":\"user\",\"content\":\"u\"},",
            "{\"role\":\"assistant\",\"content\":\"a\",\"tool_calls\":[{\"id\":\"c1\",\"type\":\"function\",\"function\":{\"name\":\"f\",\"arguments\":\"{\\\"x\\\":1}\"}}]},",
            "{\"role\":\"tool\",\"tool_call_id\":\"c1\",\"content\":\"r\"},",
            "{\"role\":\"assistant\",\"content\":\"p\"}],",
            "\"temperature\":0.0,",
            "\"tools\":[{\"type\":\"function\",\"function\":{\"name\":\"t\",\"description\":\"d\",\"parameters\":{}}}],",
            "\"tool_choice\":\"required\",\"stop\":[\"END\"]}",
        ]
        .concat()
    );
}

#[test]
fn openai_request_named_tool_choice_and_model() {
    let req = ChatRequest {
        model: "m1".into(),
        messages: vec![Message::User { content: "hi".into() }],
        tools: None,
        temperature: Some(JsonNumber::Float("0.7".into())),
        tool_choice: Some(ToolChoice::Tool { name: "pick".into() }),
        stop_sequences: None,
        prefill: None,
    };
    let body = to_json_text(&OpenAIAdapter.build_request(&req, "gpt"));
    assert_eq!(
        body,
        "{\"model\":\"m1\",\"messages\":[{\"role\":\"user\",\"content\":\"hi\"}],\"temperature\":0.7,\"tool_choice\":{\"type\":\"function\",\"function\":{\"name\":\"pick\"}}}"
    );
}

#[test]
fn anthropic_request_body_exact() {
    let req = ChatRequest {
        model: String::new(),
        messages: conversation(),
        tools: one_tool(),
        temperature: Some(JsonNumber::Float("0.5".into())),
        tool_choice: Some(ToolChoice::Any),
        stop_sequences: Some(vec!["END".into()]),
        prefill: Some("p".into()),
    };
    let body = to_json_text(&AnthropicAdapter.build_request(&req, "model-b"));
    assert_eq!(
        body,
        [
            "{\"model\":\"model-b\",\"max_tokens\":8192,\"messages\":[",
            "{\"role\":\"user\",\"content\":\"u\"},",
            "{\"role\":\"assistant\",\"content\":[{\"type\":\"text\",\"text\":\"a\"},{\"type\":\"tool_use\",\"id\":\"c1\",\"name\":\"f\",\"input\":{\"x\":1}}]},",
            "{\"role\":\"user\",\"content\":[{\"type\":\"tool_result\",\"tool_use_id\":\"c1\",\"content\":\"r\",\"is_error\":false}]}],",
            "\"temperature\":0.5,\"system\":[{\"type\":\"text\",\"text\":\"s\"}],",
            "\"tools\":[{\"name\":\"t\",\"description\":\"d\",\"input_schema\":{}}]}",
        ]
        .concat()
    );
}

#[test]
fn anthropic_tool_input_falls_back_to_empty_object() {
    let req = ChatRequest {
        model: "m".into(),
        messages: vec![Message::Assistant {
            content: String::new(),
            tool_calls: vec![ToolCall { id: "i".into(), name: "n".into(), arguments: "not json".into() }],
        }],
        tools: None,
        temperature: None,
        tool_choice: None,
        stop_sequences: None,
        prefill: None,
    };
    let body = to_json_text(&AnthropicAdapter.build_request(&req, "model-b"));
    assert_eq!(
        body,
        "{\"model\":\"m\",\"max_tokens\":8192,\"messages\":[{\"role\":\"assistant\",\"content\":[{\"type\":\"tool_use\",\"id\":\"i\",\"name\":\"n\",\"input\":{}}]}],\"temperature\":0.0}"
    );
}

#[test]
fn provider_headers() {
    let h = OpenAIAdapter.headers("k1");
    assert_eq!(h, vec![("Authorization".to_string(), "Bearer k1".to_string())]);
    let h = AnthropicAdapter.headers("k2");
    assert_eq!(
        h,
        vec![("x-api-key".to_string(), "k2".to_string()), ("anthropic-version".to_string(), "2023-10-01".to_string())]
    );
}

#[test]
fn compat_request_body_exact() {
    let mut tools = one_tool().unwrap();
    tools.push(CachedTool {
        definition: ToolDefinition { name: String::new(), description: String::new(), parameters: "{}".into() },
        cache_breakpoint: true,
    });
    let req = ChatRequest {
        model: String::new(),
        messages: vec![
            system_text(""),
            Message::User { content: "u".into() },
            Message::User { content: String::new() },
        ],
        tools: Some(tools),
        temperature: None,
        tool_choice: None,
        stop_sequences: None,
        prefill: None,
    };
    let a = OpenAICompatAdapter::for_id("deepseek").unwrap();
    assert_eq!(a.id(), "deepseek");
    assert_eq!(a.endpoint("https://api.x"), "https://api.x/chat/completions");
    let body = to_json_text(&a.build_request(&req, "ds"));
    assert_eq!(
        body,
        [
            "{\"model\":\"ds\",\"messages\":[{\"role\":\"user\",\"content\":\"u\"}],",
            "\"temperature\":0.6000000238418579,",
            "\"tools\":[{\"type\":\"function\",\"function\":{\"name\":\"t\",\"description\":\"d\",\"parameters\":{}}}]}",
        ]
        .concat()
    );
}

#[test]
fn compat_ids_and_endpoints() {
    for id in ["nvidia", "llama", "vllm"] {
        let a = OpenAICompatAdapter::for_id(id).unwrap();
        assert_eq!(a.id(), id);
        assert_eq!(a.endpoint("b"), "b/v1/chat/completions");
    }
    assert!(OpenAICompatAdapter::for_id("openai").is_none());
    assert!(OpenAICompatAdapter::for_id("anthropic").is_none());
}

#[test]
fn default_temperature_is_f32_widened() {
    let v = serde_json::Value::from(0.6f32);
    assert_eq!(v.to_string(), "0.6000000238418579");
    assert_eq!(serde_json::Value::from(0.0f32).to_string(), "0.0");
}

#[test]
fn anthropic_messages_are_user_or_assistant() {
    let mut messages = conversation();
    messages.push(system_text("late system"));
    let req = ChatRequest {
        model: String::new(),
        messages,
        tools: None,
        temperature: None,
        tool_choice: None,
        stop_sequences: None,
        prefill: None,
    };
    let body: serde_json::Value = serde_json::from_str(&to_json_text(&AnthropicAdapter.build_request(&req, "m"))).unwrap();
    for m in body["messages"].as_array().unwrap() {
        let role = m["role"].as_str().unwrap();
        assert!(role == "user" || role == "assistant");
    }
    assert_eq!(body["system"][0]["text"], "s");
}

#[test]
fn system_blocks_per_provider() {
    let system = Message::System {
        content: vec![
            TextBlock { text: "core".into(), cache_breakpoint: true },
            TextBlock { text: "session".into(), cache_breakpoint: false },
        ],
    };
    let req = ChatRequest {
        model: "m".into(),
        messages: vec![system, Message::User { content: "u".into() }],
        tools: None,
        temperature: None,
        tool_choice: None,
        stop_sequences: None,
        prefill: None,
    };
    let a = to_json_text(&AnthropicAdapter.build_request(&req, "d"));
    assert!(a.contains("\"system\":[{\"type\":\"text\",\"text\":\"core\",\"cache_control\":{\"type\":\"ephemeral\"}},{\"type\":\"text\",\"text\":\"session\"}]"));
    let o = to_json_text(&OpenAIAdapter.build_request(&req, "d"));
    assert!(o.contains("{\"role\":\"system\",\"content\":\"core\\n\\nsession\"}"));
}

#[test]
fn response_outcome_parses_the_body_first() {
    match response_outcome(200, "not json".into(), "OpenAI") {
        Err(LlmError::ParseError { detail }) => {
            assert!(detail.starts_with("Invalid JSON from OpenAI: "));
            assert!(detail.len() > "Invalid JSON from OpenAI: ".len());
        }
        other => panic!("unexpected {:?}", other),
    }
    match response_outcome(500, "not json".into(), "OpenAI") {
        Err(LlmError::ParseError { .. }) => {}
        other => panic!("unexpected {:?}", other),
    }
    assert!(matches!(response_outcome(429, "{\"error\":1}".into(), "OpenAI"), Err(LlmError::ApiError { status: 429, .. })));
    assert!(response_outcome(200, "{}".into(), "OpenAI").is_ok());
}

#[test]
fn base_config_debug_hides_the_key() {
    let c = BaseConfig {
        api_key: "sk-secret".into(),
        base_url: "https://api.example.com".into(),
        default_model: "m\"1".into(),
        timeout_secs: 30,
    };
    let text = c.debug_text();
    assert_eq!(
        text,
        "BaseConfig { api_key: \"****\", base_url: \"https://api.example.com\", default_model: \"m\\\"1\", timeout_secs: 30 }"
    );
    assert!(!text.contains("sk-secret"));
}

#[test]
fn chat_response_text_content() {
    let r = ChatResponse { content: "hello".into(), tool_calls: vec![], usage: TokenUsage::default(), raw: Json::Null };
    assert_eq!(r.text_content(), "hello");
}
