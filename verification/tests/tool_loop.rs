use devops_agent::llm::tool_use_loop::dag::{DagNode, DagOrchestrator, DagResult};
use devops_agent::llm::tool_use_loop::executor::{ParallelSafety, ToolExecutor};
use devops_agent::llm::tool_use_loop::fallback::{FallbackHandler, FallbackReason, FallbackResult};
use devops_agent::llm::tool_use_loop::loop_detector::{LoopDetector, LoopIntervention};
use devops_agent::llm::tool_use_loop::retry::{RetryPolicy, RetryStep, ToolErrorKind};
use devops_agent::llm::tool_use_loop::signal_voter::{NegativeSignal, SignalVoter};
use devops_agent::llm::tool_use_loop::stream::{LoopStep, StreamAccumulator, StreamEvent, ToolUseLoop};
use devops_agent::llm::tool_use_loop::tool_registry::{infer_category, ToolDefinition, ToolRegistry, ToolSource};
use devops_agent::llm::tool_use_loop::{ToolCall, ToolCallResult};
use devops_agent::llm::LlmError;

fn node(id: &str, deps: &[&str]) -> DagNode {
    DagNode { id: id.to_string(), task: format!("task {}", id), dependencies: deps.iter().map(|d| d.to_string()).collect() }
}

#[test]
fn dag_validate_accepts_acyclic_graph() {
    let dag = DagOrchestrator::new(vec![node("a", &[]), node("b", &["a"]), node("c", &["a", "b"])]);
    assert_eq!(dag.validate(), Ok(()));
    assert_eq!(dag.compute_levels(), vec![vec!["a".to_string()], vec!["b".to_string()], vec!["c".to_string()]]);
}

#[test]
fn dag_validate_reports_missing_dependency() {
    let dag = DagOrchestrator::new(vec![node("a", &["x"])]);
    assert_eq!(dag.validate(), Err("节点 a 依赖的 x 不存在".to_string()));
}

#[test]
fn dag_validate_reports_cycle() {
    let dag = DagOrchestrator::new(vec![node("a", &["b"]), node("b", &["a"])]);
    assert_eq!(dag.validate(), Err("DAG 检测到环，无法进行拓扑排序".to_string()));
}

#[test]
fn dag_levels_group_parallel_nodes() {
    let dag = DagOrchestrator::new(vec![node("a", &[]), node("b", &[]), node("c", &["a"])]);
    assert_eq!(dag.compute_levels(), vec![vec!["a".to_string(), "b".to_string()], vec!["c".to_string()]]);
    assert!(DagOrchestrator::new(vec![]).compute_levels().is_empty());
}

#[test]
fn dag_result_counts() {
    let mut r = DagResult::new();
    r.record("a", true, "ok");
    r.record("b", false, "boom");
    assert_eq!(r.success_count(), 1);
    assert_eq!(r.failure_count(), 1);
    assert!(!r.all_success());
}

#[test]
fn retry_policy_values() {
    assert!(ToolErrorKind::Timeout.is_retriable());
    assert!(!ToolErrorKind::PermissionDenied.is_retriable());
    assert_eq!(ToolErrorKind::Timeout.max_attempts(), 5);
    assert_eq!(ToolErrorKind::Timeout.backoff_ms(0), 2000);
    assert_eq!(ToolErrorKind::Timeout.backoff_ms(2), 8000);
    assert_eq!(ToolErrorKind::NetworkError.backoff_ms(1), 3000);
    assert_eq!(ToolErrorKind::NotFound.backoff_ms(1), 0);
}

#[test]
fn retry_step_finishes_on_success() {
    match RetryPolicy::next_step(ToolErrorKind::Unknown, 0, ToolCallResult::Success("done".into())) {
        RetryStep::Finish(ToolCallResult::Success(s)) => assert_eq!(s, "done"),
        _ => panic!("expected a finished success"),
    }
    match RetryPolicy::next_step(ToolErrorKind::Unknown, 0, ToolCallResult::Failure("x".into())) {
        RetryStep::Retry(ms) => assert_eq!(ms, 3000),
        _ => panic!("expected a retry"),
    }
}

#[test]
fn signal_voter_escalates_with_three_signals_one_strong() {
    let mut v = SignalVoter::new();
    v.add(NegativeSignal::TokenOverBudget);
    v.add(NegativeSignal::TokenOverBudget);
    v.add(NegativeSignal::ContentAnomaly);
    assert_eq!(v.signal_count(), 2);
    assert!(!v.should_escalate());
    v.add(NegativeSignal::RepeatedToolCall);
    assert!(v.should_escalate());
    assert!(NegativeSignal::ToolExecutionFailed.is_strong());
    assert!(!NegativeSignal::RoundExceeded.is_strong());
}

fn call(id: &str, name: &str, args: &str) -> ToolCall {
    ToolCall { id: id.into(), name: name.into(), arguments: args.into() }
}

#[test]
fn loop_detector_warns_then_stops() {
    let mut d = LoopDetector::new(6);
    for _ in 0..3 {
        d.record(&[call("1", "jenkins_build", "{}")]);
    }
    match d.is_looping() {
        Some(LoopIntervention::Level2 { .. }) => {}
        _ => panic!("expected a warning"),
    }
    match d.is_looping() {
        Some(LoopIntervention::Level3 { message }) => assert!(message.contains("建议降级或终止")),
        _ => panic!("expected a forced stop"),
    }
}

#[test]
fn loop_detector_quiet_without_repetition() {
    let mut d = LoopDetector::new(6);
    d.record(&[call("1", "a", "{}")]);
    d.record(&[call("2", "b", "{}")]);
    assert!(d.is_looping().is_none());
}

#[test]
fn registry_search_and_categories() {
    let mut r = ToolRegistry::new();
    let def = |n: &str| ToolDefinition { name: n.into(), description: format!("{} tool", n), parameters: "{}".into() };
    r.register("jenkins_build", ToolSource::Builtin, def("jenkins_build"));
    r.register("kubectl_apply", ToolSource::Mcp, def("kubectl_apply"));
    r.add_synonyms("jenkins_build", &["构建"]);
    let hits = r.search("构建");
    assert_eq!(hits.len(), 1);
    assert_eq!(hits[0].name(), "jenkins_build");
    assert_eq!(r.search("APPLY")[0].name(), "kubectl_apply");
    assert_eq!(r.search_category("k8s").len(), 1);
    assert_eq!(r.list_tools().len(), 2);
    assert_eq!(infer_category("docker_ps"), "docker");
    assert_eq!(infer_category("kubectl_get"), "k8s");
    assert_eq!(infer_category("get_time"), "builtin");
}

#[test]
fn fallback_command_and_results() {
    let mut h = FallbackHandler::new("/usr/bin/agent".into());
    h.set_timeout_secs(60);
    assert_eq!(h.timeout_secs(), 60);
    let cmd = h.build_command("fix build", "main");
    assert_eq!(cmd[0], "/usr/bin/agent");
    assert!(FallbackResult::success("ok".into(), 10).success);
    let f = FallbackResult::failure("bad".into(), FallbackReason::Timeout);
    assert!(!f.success);
}

#[test]
fn executor_partitions_by_safety() {
    let mut e = ToolExecutor::new();
    e.register("read", ParallelSafety::Safe);
    e.register("deploy", ParallelSafety::CategoryExclusive("k8s".into()));
    let calls = vec![call("1", "read", "{}"), call("2", "deploy", "{}"), call("3", "unknown", "{}"), call("4", "read", "{}")];
    let (safe, exclusive) = e.partition_calls(&calls);
    assert_eq!(safe, vec!["1", "4"]);
    assert_eq!(exclusive, vec!["2", "3"]);
    assert!(matches!(e.safety_for("nothing"), ParallelSafety::Exclusive));
    match ToolExecutor::unknown_tool("x") {
        ToolCallResult::Failure(m) => assert_eq!(m, "未知工具: x"),
        _ => panic!("expected a failure"),
    }
}

#[test]
fn stream_accumulator_builds_tool_calls() {
    let mut acc = StreamAccumulator::new();
    assert!(matches!(acc.apply(StreamEvent::TextDelta("Hi".into())), Some(StreamEvent::TextDelta(_))));
    let fwd = acc.apply(StreamEvent::ToolCallDelta { index: 1, id: Some("c1".into()), name: Some("read".into()), arguments_delta: Some("{\"p\":".into()) });
    match fwd {
        Some(StreamEvent::ToolCallDelta { index, id, name, arguments_delta }) => {
            assert_eq!(index, 1);
            assert_eq!(id, Some("c1".to_string()));
            assert_eq!(name, Some("read".to_string()));
            assert!(arguments_delta.is_none());
        }
        _ => panic!("expected a forwarded tool-call delta"),
    }
    acc.apply(StreamEvent::ToolCallDelta { index: 1, id: None, name: None, arguments_delta: Some("1}".into()) });
    acc.apply(StreamEvent::ToolCallDelta { index: 2, id: Some("c2".into()), name: Some("x".into()), arguments_delta: Some("not json".into()) });
    assert!(acc.apply(StreamEvent::Done).is_none());
    assert!(acc.is_done());
    let (text, calls, _usage) = acc.finish();
    assert_eq!(text, "Hi");
    assert_eq!(calls.len(), 3);
    assert_eq!(calls[0].arguments, "{}");
    assert_eq!(calls[1].id, "c1");
    assert_eq!(calls[1].arguments, "{\"p\":1}");
    assert_eq!(calls[2].arguments, "\"not json\"");
}

#[test]
fn loop_steps_and_budget_error() {
    let mut l = ToolUseLoop::new();
    assert_eq!(l.max_iterations(), 15);
    l.set_max_iterations(2);
    assert_eq!(l.step(1, false), LoopStep::Finish);
    assert_eq!(l.step(1, true), LoopStep::RunTools);
    assert_eq!(l.step(2, true), LoopStep::RunToolsThenStop);
    match l.budget_exceeded() {
        LlmError::Provider { provider, message, .. } => {
            assert_eq!(provider, "tool_use_loop");
            assert_eq!(message, "tool-use 循环超过最大轮次限制 (2)");
        }
        _ => panic!("expected a provider error"),
    }
}

#[test]
fn retriable_exactly_when_attempts_remain() {
    let kinds = [
        ToolErrorKind::Timeout,
        ToolErrorKind::PermissionDenied,
        ToolErrorKind::NotFound,
        ToolErrorKind::NetworkError,
        ToolErrorKind::ParseError,
        ToolErrorKind::Unknown,
    ];
    for k in kinds {
        assert_eq!(k.is_retriable(), k.max_attempts() > 0);
    }
}

#[test]
fn dag_levels_do_not_depend_on_input_order() {
    let o = DagOrchestrator::new(vec![node("c", &["b"]), node("b", &["a"]), node("a", &[])]);
    assert!(o.validate().is_ok());
    assert_eq!(o.compute_levels(), vec![vec!["a".to_string()], vec!["b".to_string()], vec!["c".to_string()]]);
    let o = DagOrchestrator::new(vec![node("d", &["a", "c"]), node("c", &["b"]), node("a", &[]), node("b", &["a"])]);
    assert_eq!(
        o.compute_levels(),
        vec![vec!["a".to_string()], vec!["b".to_string()], vec!["c".to_string()], vec!["d".to_string()]]
    );
}

#[test]
fn registry_synonym_found_in_any_case_and_lists_only_grow() {
    let mut r = ToolRegistry::new();
    let def = |n: &str| ToolDefinition { name: n.into(), description: String::new(), parameters: "{}".into() };
    r.register("docker_ps", ToolSource::Builtin, def("docker_ps"));
    r.register("docker_logs", ToolSource::Builtin, def("docker_logs"));
    r.add_synonyms("docker_ps", &["containers"]);
    assert_eq!(r.search("containers")[0].name(), "docker_ps");
    assert_eq!(r.search("CONTAINERS")[0].name(), "docker_ps");
    r.add_synonyms("docker_logs", &["containers"]);
    let hits = r.search("Containers");
    assert_eq!(hits.len(), 2);
    assert_eq!(hits[0].name(), "docker_ps");
    assert_eq!(hits[1].name(), "docker_logs");
}

#[test]
fn registry_category_search_lists_exactly_its_tools() {
    let mut r = ToolRegistry::new();
    let def = |n: &str| ToolDefinition { name: n.into(), description: String::new(), parameters: "{}".into() };
    r.register("gitlab_mr", ToolSource::Builtin, def("gitlab_mr"));
    r.register("k8s_pods", ToolSource::Builtin, def("k8s_pods"));
    r.register("gitlab_ci", ToolSource::Dynamic, def("gitlab_ci"));
    let g = r.search_category("gitlab");
    assert_eq!(g.len(), 2);
    assert_eq!(g[0].name(), "gitlab_mr");
    assert_eq!(g[1].name(), "gitlab_ci");
    assert_eq!(r.search_category("GITLAB").len(), 0);
    assert_eq!(r.search_category("other").len(), 0);
    let found = r.search("gitlab_ci");
    assert_eq!(found[0].name(), "gitlab_ci");
    assert!(matches!(found[0].source, ToolSource::Dynamic));
    // no exact or synonym hit: every tool whose lower-cased name contains the query
    let sub = r.search("GITLAB");
    assert_eq!(sub.len(), 2);
}

#[test]
fn registry_lists_one_entry_per_name() {
    let mut r = ToolRegistry::new();
    assert_eq!(r.list_tools().len(), 0);
    let def = |n: &str, d: &str| ToolDefinition { name: n.into(), description: d.into(), parameters: "{}".into() };
    r.register("docker_ps", ToolSource::Builtin, def("docker_ps", "first"));
    r.register("git_log", ToolSource::Builtin, def("git_log", ""));
    r.register("docker_ps", ToolSource::Mcp, def("docker_ps", "second"));
    let all = r.list_tools();
    assert_eq!(all.len(), 2);
    assert_eq!(all[0].definition.description, "second");
    assert!(matches!(all[0].source, ToolSource::Mcp));
    assert_eq!(all[1].name(), "git_log");
}
