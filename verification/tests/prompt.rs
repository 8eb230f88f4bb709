use devops_agent::llm::prompt_builder::{default_static_prefix, estimate_tokens, truncate_to, PromptBuilder, SessionSlots, StaticPrefix, SYSTEM_CORE};
use devops_agent::llm::tool_use_loop::tool_registry::ToolDefinition;
use devops_agent::llm::{flatten_text, Message};

#[test]
fn test_static_prefix_compilation() {
    let prefix = StaticPrefix::new("核心".into(), "工具".into(), "规则".into());
    assert_eq!(prefix.as_str(), "核心\n\n工具\n\n规则");
}

#[test]
fn test_session_slots() {
    let mut slots = SessionSlots::new();
    slots.goal = Some("部署 ds-pkg".into());
    slots.add_step("步骤 1: 验证配置".into());
    slots.add_step("步骤 2: 触发构建".into());
    slots.add_error("错误: 超时".into());

    let ctx = slots.to_context();
    assert!(ctx.contains("当前目标: 部署 ds-pkg"));
    assert!(ctx.contains("步骤 1: 验证配置"));
    assert!(ctx.contains("错误: 超时"));
}

#[test]
fn test_session_slot_truncation() {
    let mut slots = SessionSlots::new();
    slots.max_slot_chars = 10;
    slots.add_step("这是一个很长的步骤结果应该会截断".into());
    assert!(slots.recent_steps[0].ends_with('…'));
}

#[test]
fn test_estimate_tokens() {
    assert!((estimate_tokens("你好") as i32 - 3).abs() <= 1);
}

#[test]
fn estimate_tokens_exact_values() {
    assert_eq!(estimate_tokens(""), 0);
    assert_eq!(estimate_tokens("abcd"), 1);
    assert_eq!(estimate_tokens("你好"), 3);
    assert_eq!(estimate_tokens("，，"), 2);
    assert_eq!(estimate_tokens("ab你"), 2);
}

#[test]
fn session_context_exact_text() {
    let mut slots = SessionSlots::new();
    slots.goal = Some("g".into());
    slots.add_step("a".into());
    slots.add_step("b".into());
    slots.add_error("e".into());
    assert_eq!(slots.to_context(), "当前目标: g\n\n最近步骤:\n  1. a\n  2. b\n\n活跃错误:\n  1. e");
    assert_eq!(SessionSlots::new().to_context(), "");
}

#[test]
fn session_slots_keep_last_five_steps_and_three_errors() {
    let mut slots = SessionSlots::new();
    for i in 0..7 {
        slots.add_step(format!("s{}", i));
        slots.add_error(format!("e{}", i));
    }
    assert_eq!(slots.recent_steps, vec!["s2", "s3", "s4", "s5", "s6"]);
    assert_eq!(slots.active_errors, vec!["e4", "e5", "e6"]);
}

#[test]
fn truncate_to_marks_cut_text() {
    assert_eq!(truncate_to("abcdef".to_string(), 3), "abc…");
    assert_eq!(truncate_to("abc".to_string(), 3), "abc");
}

#[test]
fn default_prefix_starts_with_core() {
    assert!(default_static_prefix().as_str().starts_with(SYSTEM_CORE));
}

fn make_builder() -> PromptBuilder {
    PromptBuilder::with_defaults(
        "你是 DevOps Agent。".into(),
        "可用工具: get_time, get_env, get_config".into(),
        "项目规则: 使用中文回复。".into(),
    )
}

fn tool(name: &str, description: &str) -> ToolDefinition {
    ToolDefinition { name: name.into(), description: description.into(), parameters: "{\"type\":\"object\"}".into() }
}

#[test]
fn test_memory_filtering() {
    let builder = make_builder();
    let threshold: f32 = 0.7;
    let memory = vec![("高分记忆".to_string(), 0.9f32 >= threshold), ("低分记忆".to_string(), 0.3f32 >= threshold)];
    let system = builder.build_system_prompt(&memory, &SessionSlots::new());
    assert!(system.contains("高分记忆"));
    assert!(!system.contains("低分记忆"));
}

#[test]
fn test_build_request() {
    let builder = make_builder();
    let req = builder.build("部署 ds-pkg/dev".into(), &vec![], &SessionSlots::new(), vec![], vec![], vec![]);
    assert!(!req.messages.is_empty());
    assert!(matches!(req.messages.first(), Some(Message::System { .. })));
    assert!(matches!(req.messages.last(), Some(Message::User { .. })));
}

#[test]
fn test_build_with_tools() {
    let builder = make_builder();
    let workflow_tools = vec![tool("jenkins_build", "触发构建")];
    let req = builder.build("构建".into(), &vec![], &SessionSlots::new(), workflow_tools, vec![], vec![]);
    assert!(req.tools.is_some());
    let tools = req.tools.as_ref().unwrap();
    assert!(tools.iter().any(|t| t.definition.name == "jenkins_build"));
    let jenkins_tool = tools.iter().find(|t| t.definition.name == "jenkins_build").unwrap();
    assert!(jenkins_tool.cache_breakpoint);
}

#[test]
fn test_build_cache_breakpoints() {
    let builder = make_builder();
    let mut session = SessionSlots::new();
    session.goal = Some("测试".into());
    let req = builder.build("测试提示".into(), &vec![], &session, vec![], vec![], vec![]);
    if let Message::System { content } = &req.messages[0] {
        assert!(matches!(content.first(), Some(b) if b.cache_breakpoint && b.text.starts_with("你是 DevOps Agent。")));
        assert!(matches!(content.last(), Some(b) if b.cache_breakpoint && b.text == "会话上下文:\n当前目标: 测试"));
    } else {
        panic!("Expected System message");
    }
}

#[test]
fn test_build_simple() {
    let builder = make_builder();
    let req = builder.build_simple("分析构建日志".into());
    assert_eq!(req.messages.len(), 2);
    assert!(matches!(req.messages[0], Message::System { .. }));
    assert!(matches!(req.messages[1], Message::User { .. }));
    assert!(req.tools.is_none());
    if let Message::System { content } = &req.messages[0] {
        assert!(matches!(content.first(), Some(b) if b.cache_breakpoint));
        assert_eq!(content.len(), 1);
        assert_eq!(content[0].text, "你是 DevOps Agent。\n\n可用工具: get_time, get_env, get_config\n\n项目规则: 使用中文回复。");
    }
}

#[test]
fn system_prompt_exact_layers() {
    let builder = make_builder();
    let memory = vec![("甲".to_string(), true), ("乙".to_string(), false), ("丙".to_string(), true)];
    let mut session = SessionSlots::new();
    session.add_step("步骤".into());
    let system = builder.build_system_prompt(&memory, &session);
    assert_eq!(
        system,
        "你是 DevOps Agent。\n\n可用工具: get_time, get_env, get_config\n\n项目规则: 使用中文回复。\n\n相关记忆:\n  1. 甲\n  2. 丙\n\n会话上下文:\n最近步骤:\n  1. 步骤"
    );
}

#[test]
fn system_prompt_keeps_slot_limit_and_cuts_memories() {
    let builder = PromptBuilder::new(StaticPrefix::new("a".into(), "b".into(), "c".into()), vec![], 2, 3);
    let memory = vec![("12345".to_string(), true), ("xy".to_string(), true), ("zzz".to_string(), true)];
    let system = builder.build_system_prompt(&memory, &SessionSlots::new());
    assert_eq!(system, "a\n\nb\n\nc\n\n相关记忆:\n  1. 123…\n  2. xy");
}

#[test]
fn merge_tools_marks_and_orders() {
    let builder = PromptBuilder::with_static_tools(vec![tool("s", "static")]);
    let merged = builder.merge_tools(vec![tool("w", "workflow")], vec![tool("r", "request")]);
    let names: Vec<&str> = merged.iter().map(|t| t.definition.name.as_str()).collect();
    assert_eq!(names, vec!["s", "", "w", "", "r"]);
    let marks: Vec<bool> = merged.iter().map(|t| t.cache_breakpoint).collect();
    assert_eq!(marks, vec![true, true, true, true, false]);
    assert!(builder.merge_tools(vec![], vec![]).len() == 1);
    assert!(make_builder().merge_tools(vec![], vec![]).is_empty());
}

#[test]
fn build_keeps_conversation_order() {
    let builder = make_builder();
    let conversation = vec![
        Message::User { content: "一".into() },
        Message::Assistant { content: "二".into(), tool_calls: vec![] },
    ];
    let req = builder.build("三".into(), &vec![], &SessionSlots::new(), vec![], vec![], conversation);
    assert_eq!(req.messages.len(), 4);
    assert!(matches!(&req.messages[1], Message::User { content } if content == "一"));
    assert!(matches!(&req.messages[2], Message::Assistant { content, .. } if content == "二"));
    assert!(matches!(&req.messages[3], Message::User { content } if content == "三"));
    assert!(req.tools.is_none());
}

#[test]
fn system_prompt_always_starts_with_prefix() {
    let builder = make_builder();
    let prefix = "你是 DevOps Agent。\n\n可用工具: get_time, get_env, get_config\n\n项目规则: 使用中文回复。";
    let mut session = SessionSlots::new();
    for round in 0..4 {
        let memory: Vec<(String, bool)> = (0..round).map(|i| (format!("m{}", i), i % 2 == 0)).collect();
        session.add_error(format!("e{}", round));
        assert!(builder.build_system_prompt(&memory, &session).starts_with(prefix));
        assert!(builder.build_system_prompt(&memory, &SessionSlots::new()).starts_with(prefix));
    }
}

#[test]
fn system_message_has_one_cached_block_per_layer() {
    let builder = make_builder();
    let memory = vec![("甲".to_string(), true)];
    let mut session = SessionSlots::new();
    session.add_step("步骤".into());
    let req = builder.build("q".into(), &memory, &session, vec![], vec![], vec![]);
    let Message::System { content } = &req.messages[0] else { panic!("Expected System message") };
    let texts: Vec<&str> = content.iter().map(|b| b.text.as_str()).collect();
    assert_eq!(
        texts,
        vec![
            "你是 DevOps Agent。\n\n可用工具: get_time, get_env, get_config\n\n项目规则: 使用中文回复。",
            "相关记忆:\n  1. 甲",
            "会话上下文:\n最近步骤:\n  1. 步骤",
        ]
    );
    assert!(content.iter().all(|b| b.cache_breakpoint));
    assert_eq!(flatten_text(content), builder.build_system_prompt(&memory, &session));
}

#[test]
fn default_static_prefix_is_the_same_for_every_builder() {
    let builder1 = PromptBuilder::with_static_tools(vec![]);
    let builder2 = PromptBuilder::with_static_tools(vec![]);
    assert_eq!(builder1.static_prefix(), builder2.static_prefix());
    assert_eq!(builder1.static_prefix(), default_static_prefix().as_str());
    assert!(builder1.static_prefix().starts_with(SYSTEM_CORE));
}
