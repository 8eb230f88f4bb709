use devops_agent::json::JsonNumber;
use devops_agent::llm::{Message, ToolChoice};
use devops_agent::token::summarizer::{
    summary_request, tokens_fit, CompressionPhase, CompressionStrategy, CompressionTrigger, Summarizer, SUMMARY_SCHEMA,
    SUMMARY_SYSTEM,
};

#[test]
fn test_phase_transitions() {
    let s = Summarizer::default();
    assert_eq!(s.current_phase(5), CompressionPhase::Linear);
    assert_eq!(s.current_phase(10), CompressionPhase::Linear);
    assert_eq!(s.current_phase(12), CompressionPhase::Summary);
    assert_eq!(s.current_phase(15), CompressionPhase::Summary);
    assert_eq!(s.current_phase(20), CompressionPhase::Structured);
}

/// The default token-budget threshold is 80 percent of the window.
fn budget_reached(percent: f32) -> bool {
    percent >= 80.0
}

#[test]
fn test_should_compress_round_threshold() {
    let s = Summarizer::default();
    assert_eq!(s.should_compress(5, budget_reached(50.0)), None);
    assert_eq!(s.should_compress(10, budget_reached(50.0)), Some(CompressionTrigger::RoundThreshold));
    assert_eq!(s.should_compress(10, budget_reached(85.0)), Some(CompressionTrigger::TokenBudget));
}

#[test]
fn test_should_compress_token_budget() {
    let s = Summarizer::default();
    assert_eq!(s.should_compress(5, budget_reached(90.0)), Some(CompressionTrigger::TokenBudget));
}

#[test]
fn test_summarize_local_sentence_boundary() {
    let s = Summarizer::default();
    let msgs = vec!["Line one.\nLine two.\nLine three.".to_string(), "Short message here".to_string()];
    let result = s.summarize_local(&msgs);
    assert!(result.summary.contains("Line one"));
    assert!(result.summary.contains("Line two"));
}

#[test]
fn test_summarize_local_chinese_truncation() {
    let s = Summarizer::default();
    let long_msg = "你好世界".repeat(60);
    let msgs = vec![long_msg.clone()];
    let result = s.summarize_local(&msgs);
    assert!(result.compressed_tokens < result.original_tokens);
    assert!(result.summary.ends_with('…'));
}

#[test]
fn test_estimate_tokens_chinese() {
    let tokens = Summarizer::estimate_tokens("你好世界");
    assert!((tokens as i32 - 6).abs() <= 1);
}

#[test]
fn test_estimate_tokens_ascii() {
    let tokens = Summarizer::estimate_tokens("Hello World");
    assert!(tokens >= 2 && tokens <= 4);
}

#[test]
fn summarize_local_exact_lines() {
    let s = Summarizer::default();
    let msgs = vec![
        "Line one.\nLine two.\nLine three.".to_string(),
        "Short message here".to_string(),
        "第一句。第二句".to_string(),
    ];
    let result = s.summarize_local(&msgs);
    assert_eq!(result.summary, "[1] Line one.\nLine two.\n[2] Short message here…\n[3] 第一句。");
}

#[test]
fn strategy_by_message_count() {
    let s = Summarizer::default();
    let three: Vec<String> = vec!["a".into(), "b".into(), "c".into()];
    let four: Vec<String> = vec!["a".into(), "b".into(), "c".into(), "d".into()];
    assert_eq!(s.strategy(&three), CompressionStrategy::PerMessage);
    assert_eq!(s.strategy(&four), CompressionStrategy::Batch);
}

#[test]
fn summary_request_fields() {
    let msgs = vec!["a".to_string(), "b".to_string()];
    let req = summary_request(&msgs);
    assert!(req.model.is_empty());
    assert_eq!(req.messages.len(), 2);
    assert!(matches!(&req.messages[0], Message::System { content } if content.len() == 1 && content[0].text == SUMMARY_SYSTEM && !content[0].cache_breakpoint));
    assert!(matches!(&req.messages[1], Message::User { content }
        if content == "请将以下对话历史压缩为结构化摘要。只输出 JSON，不要包含其他文字。\n\na\n---\nb"));
    let tools = req.tools.unwrap();
    assert_eq!(tools.len(), 1);
    assert_eq!(tools[0].definition.name, "compression_summary");
    assert_eq!(tools[0].definition.parameters, SUMMARY_SCHEMA);
    assert!(matches!(req.temperature, Some(JsonNumber::Float(ref t)) if t == "0.5"));
    assert!(matches!(req.tool_choice, Some(ToolChoice::Tool { ref name }) if name == "compression_summary"));
}

#[test]
fn summary_schema_is_the_summary_shape() {
    let v: serde_json::Value = serde_json::from_str(SUMMARY_SCHEMA).unwrap();
    assert_eq!(v["type"], "object");
    let required: Vec<&str> = v["required"].as_array().unwrap().iter().map(|x| x.as_str().unwrap()).collect();
    assert_eq!(required, vec!["summary", "key_decisions", "action_items"]);
    assert_eq!(v["properties"]["summary"]["type"], "string");
    assert_eq!(v["properties"]["key_decisions"]["items"]["type"], "string");
    assert_eq!(v["properties"]["action_items"]["type"], "array");
    assert_eq!(serde_json::to_string(&v).unwrap(), SUMMARY_SCHEMA);
}

#[test]
fn token_sums_fit() {
    assert!(tokens_fit(&["hello".to_string(), "你好".to_string()]));
    assert!(tokens_fit(&[]));
}
