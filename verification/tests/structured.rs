use devops_agent::json::{Json, JsonNumber};
use devops_agent::llm::structured_output::{
    enhanced_prompt_output, extract_braces, extract_from_tool_use, fix_common_errors, parse_failure_message,
    robust_parse_candidates, strip_codeblocks, type_mismatch_message, StructuredOutput, StructuredOutputError,
    StructuredOutputMode,
};
use devops_agent::llm::tool_use_loop::ToolCall;
use devops_agent::llm::{flatten_text, ChatResponse, LlmError, Message, ToolChoice};
use devops_agent::token::tracker::TokenUsage;

fn parse_value(text: &str) -> Option<serde_json::Value> {
    let (candidates, fixed) = robust_parse_candidates(text);
    for c in candidates {
        if let Ok(v) = serde_json::from_str::<serde_json::Value>(&c) {
            return Some(v);
        }
    }
    serde_json::from_str::<serde_json::Value>(&fixed).ok()
}

#[test]
fn test_robust_parse_direct() {
    let v = parse_value(r#"{"action":"deploy","job_name":"ds-pkg"}"#).unwrap();
    assert_eq!(v["action"], "deploy");
    assert_eq!(v["job_name"], "ds-pkg");
}

#[test]
fn test_robust_parse_codeblock() {
    let v = parse_value("```json\n{\"action\":\"build\",\"job_name\":\"test-job\"}\n```").unwrap();
    assert_eq!(v["action"], "build");
}

#[test]
fn test_robust_parse_braces() {
    let v = parse_value("Here is the result: {\"action\":\"query\",\"job_name\":\"my-job\"} done.").unwrap();
    assert_eq!(v["action"], "query");
}

#[test]
fn test_robust_parse_trailing_comma() {
    let v = parse_value(r#"{"action":"deploy","job_name":"ds-pkg","branch":"main",}"#).unwrap();
    assert_eq!(v["action"], "deploy");
}

#[test]
fn test_robust_parse_single_quotes() {
    let v = parse_value(r#"{'action':'deploy','job_name':'ds-pkg'}"#).unwrap();
    assert_eq!(v["action"], "deploy");
}

#[test]
fn test_strip_codeblocks() {
    assert_eq!(strip_codeblocks("```json\n{\"a\":1}\n```"), r#"{"a":1}"#);
    assert_eq!(strip_codeblocks("```\n{\"a\":1}\n```"), r#"{"a":1}"#);
}

#[test]
fn test_fix_common_errors() {
    assert_eq!(fix_common_errors(r#"{"a":1,}"#), r#"{"a":1}"#);
    assert_eq!(fix_common_errors(r#"{"a":[1,]}"#), r#"{"a":[1]}"#);
}

#[test]
fn test_extract_braces() {
    assert_eq!(extract_braces("hello {\"a\":1} world"), Some(r#"{"a":1}"#.into()));
    assert_eq!(extract_braces("{\"a\":{\"b\":1}}"), Some(r#"{"a":{"b":1}}"#.into()));
    assert_eq!(extract_braces(r#"{"text":"hello {world}"}"#), Some(r#"{"text":"hello {world}"}"#.into()));
}

#[test]
fn extract_braces_without_closing_brace() {
    assert_eq!(extract_braces("no braces"), None);
    assert_eq!(extract_braces("{\"a\":1"), None);
}

#[test]
fn tool_use_output_takes_first_matching_call() {
    let calls = vec![
        ToolCall { id: "1".into(), name: "other".into(), arguments: "{}".into() },
        ToolCall { id: "2".into(), name: "extract".into(), arguments: "{\"a\":1}".into() },
        ToolCall { id: "3".into(), name: "extract".into(), arguments: "{\"a\":2}".into() },
    ];
    assert_eq!(extract_from_tool_use(&calls, "extract"), Some("{\"a\":1}".to_string()));
    assert_eq!(extract_from_tool_use(&calls, "missing"), None);
}

#[test]
fn enhanced_prompt_output_restores_prefill() {
    assert_eq!(enhanced_prompt_output("  \"a\":1}  ", 0), "{\"a\":1}");
    assert_eq!(enhanced_prompt_output("\"a\":1}", 1), "\"a\":1}");
    assert_eq!(enhanced_prompt_output("{\"a\":1}", 0), "{\"a\":1}");
}

fn schema() -> Json {
    Json::Object(vec![("type".to_string(), Json::Str("object".to_string()))])
}

fn texts(messages: &[Message]) -> Vec<(String, String)> {
    messages
        .iter()
        .map(|m| match m {
            Message::System { content } => ("system".to_string(), flatten_text(content)),
            Message::User { content } => ("user".to_string(), content.clone()),
            Message::Assistant { content, .. } => ("assistant".to_string(), content.clone()),
            Message::Tool { content, .. } => ("tool".to_string(), content.clone()),
        })
        .collect()
}

fn response(content: &str, calls: Vec<ToolCall>) -> ChatResponse {
    ChatResponse {
        content: content.to_string(),
        tool_calls: calls,
        usage: TokenUsage { prompt_tokens: 0, completion_tokens: 0, total_tokens: 0 },
        raw: Json::Null,
    }
}

#[test]
fn tool_use_request_first_attempt() {
    let so = StructuredOutput::new("m".into()).schema(schema()).tool_name("extract");
    let req = so.build_tool_use_request("部署 ds-pkg", &vec![], 0);
    assert_eq!(req.model, "m");
    assert_eq!(
        texts(&req.messages),
        vec![
            (
                "system".to_string(),
                "你是一个结构化数据抽取助手。使用工具来输出严格遵循 JSON Schema 的结构化数据。\n\nSchema:\n{\"type\":\"object\"}".to_string()
            ),
            ("user".to_string(), "部署 ds-pkg".to_string()),
        ]
    );
    let tools = req.tools.unwrap();
    assert_eq!(tools.len(), 1);
    assert_eq!(tools[0].definition.name, "extract");
    assert_eq!(tools[0].definition.description, "抽取结构化数据");
    assert_eq!(tools[0].definition.parameters, "{\"type\":\"object\"}");
    assert!(!tools[0].cache_breakpoint);
    assert!(matches!(req.temperature, Some(JsonNumber::Float(ref t)) if t == "0.0"));
    assert!(matches!(req.tool_choice, Some(ToolChoice::Tool { ref name }) if name == "extract"));
    assert!(req.stop_sequences.is_none());
    assert!(req.prefill.is_none());
}

#[test]
fn tool_use_request_retry_shows_failure() {
    let so = StructuredOutput::new("m".into()).with_system_prompt("sys".into());
    let req = so.build_tool_use_request("q", &vec!["{\"a\":1}".to_string()], 1);
    assert_eq!(
        texts(&req.messages),
        vec![
            ("system".to_string(), "sys".to_string()),
            ("user".to_string(), "q".to_string()),
            ("assistant".to_string(), "{\"a\":1}".to_string()),
            (
                "user".to_string(),
                "你的上一次输出不符合 JSON Schema。错误: 上一次输出格式不符合预期 schema。\n请重新调用工具输出正确的 JSON。".to_string()
            ),
        ]
    );
    let req = so.build_tool_use_request("q", &vec!["not json".to_string()], 2);
    let last = texts(&req.messages)[3].1.clone();
    let err = serde_json::from_str::<serde_json::Value>("not json").unwrap_err().to_string();
    assert_eq!(
        last,
        format!("你的上一次输出不符合 JSON Schema。错误: 上一次输出不是有效的 JSON: {}。\n请重新调用工具输出正确的 JSON。", err)
    );
}

#[test]
fn enhanced_request_first_attempt() {
    let so = StructuredOutput::new("m".into()).schema(schema()).mode(StructuredOutputMode::EnhancedPrompt);
    let req = so.request_for_attempt("查询", &vec![], 0);
    assert_eq!(
        texts(&req.messages),
        vec![
            (
                "system".to_string(),
                "你是一个结构化数据抽取助手。严格按照指定 JSON schema 输出，\n不要添加任何解释文字，不要用 markdown 代码块包裹。\n\n<output_format>\n{\"type\":\"object\"}\n</output_format>".to_string()
            ),
            ("user".to_string(), "<input>\n查询\n</input>\n\n直接输出 JSON，以 { 开头。".to_string()),
        ]
    );
    assert!(req.tools.is_none());
    assert!(req.tool_choice.is_none());
    assert_eq!(req.stop_sequences, Some(vec!["\n\n\n".to_string(), "```\n".to_string()]));
    assert_eq!(req.prefill, Some("{}".to_string()));
}

#[test]
fn enhanced_request_retry() {
    let so = StructuredOutput::new("m".into()).mode(StructuredOutputMode::EnhancedPrompt).with_system_prompt("s".into());
    let req = so.request_for_attempt("查询", &vec!["x".to_string(), "{}".to_string()], 1);
    assert_eq!(
        texts(&req.messages),
        vec![
            ("system".to_string(), "s".to_string()),
            ("user".to_string(), "查询".to_string()),
            ("assistant".to_string(), "{}".to_string()),
            (
                "user".to_string(),
                "你的上一次输出不符合 JSON Schema。错误: 上一次输出格式不符合预期 schema。\n请直接输出 JSON，以 { 开头。".to_string()
            ),
        ]
    );
}

#[test]
fn structured_defaults() {
    let so = StructuredOutput::new("m".into());
    assert_eq!(so.max_retries(), 3);
    assert_eq!(so.output_tool(), "extract_result");
    assert_eq!(so.output(), StructuredOutputMode::ToolUse);
    let so = so.with_max_retries(5).tool_description("d");
    assert_eq!(so.max_retries(), 5);
    let req = so.build_tool_use_request("q", &vec![], 0);
    assert_eq!(req.tools.unwrap()[0].definition.parameters, "{}");
}

#[test]
fn extract_json_text_by_mode() {
    let so = StructuredOutput::new("m".into()).tool_name("t");
    let call = ToolCall { id: "1".into(), name: "t".into(), arguments: "{\"a\":1}".into() };
    assert_eq!(so.extract_json_text(&response("", vec![call]), 0).unwrap(), "{\"a\":1}");
    let long = "x".repeat(250);
    match so.extract_json_text(&response(&long, vec![]), 0) {
        Err(StructuredOutputError::ParseError { response, detail }) => {
            assert_eq!(response.len(), 200);
            assert_eq!(detail, "No tool call found in response");
        }
        _ => panic!("expected a parse error"),
    }
    let so = so.mode(StructuredOutputMode::EnhancedPrompt);
    assert_eq!(so.extract_json_text(&response(" \"a\":1} ", vec![]), 0).unwrap(), "{\"a\":1}");
    assert_eq!(so.extract_json_text(&response(" \"a\":1} ", vec![]), 1).unwrap(), "\"a\":1}");
}

#[test]
fn structured_error_texts() {
    let e = StructuredOutputError::LlmError(LlmError::Timeout);
    assert_eq!(e.to_string(), "LLM error: request timed out");
    let e = StructuredOutputError::ParseError { response: "r".into(), detail: "d".into() };
    assert_eq!(e.to_string(), "Parse error: d (response: r)");
    let e = StructuredOutputError::MaxRetriesExceeded { responses: vec!["y".repeat(60), "ok\"".to_string()] };
    assert_eq!(e.to_string(), format!("Max retries exceeded after 2 attempts: [\"{}\", \"ok\\\"\"]", "y".repeat(50)));
}

#[test]
fn parse_failure_messages() {
    assert_eq!(parse_failure_message("  abc  "), "Failed to parse JSON (preview: abc)");
    let long = "z".repeat(130);
    assert_eq!(parse_failure_message(&long), format!("Failed to parse JSON (preview: {})", "z".repeat(120)));
    assert_eq!(type_mismatch_message("bad", "v"), "JSON valid but type mismatch: bad (value: v)");
}
