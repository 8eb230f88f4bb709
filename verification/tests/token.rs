use devops_agent::token::tracker::{TokenTracker, TokenUsage};
use devops_agent::token::window::{ContextLayer, ContextWindow, Layer};
use devops_agent::memory::short_term::ShortTermMemory;
use devops_agent::memory::MemoryType;

#[test]
fn tracker_budget_and_counts() {
    let mut t = TokenTracker::new(100);
    t.record(TokenUsage::new(30, 10, 40));
    t.record(TokenUsage::new(20, 10, 30));
    assert_eq!(t.usage(), TokenUsage::new(50, 20, 70));
    assert_eq!(t.remaining(), 30);
    assert!(!t.is_exceeded());
    t.record(TokenUsage::new(30, 10, 40));
    assert_eq!(t.remaining(), 0);
    assert!(t.is_exceeded());
    assert_eq!(t.call_count(), 3);
    t.increment_round();
    assert_eq!(t.round_count(), 1);
}

#[test]
fn window_layers_and_compression() {
    let mut w = ContextWindow::new(1000);
    w.add_to_layer(Layer::Linear, "l1".into());
    w.add_to_layer(Layer::System, "system prompt".into());
    w.add_to_layer(Layer::Structured, "facts".into());
    w.add_to_layer(Layer::Linear, "l2".into());
    w.add_to_layer(Layer::Linear, "l3".into());
    assert_eq!(w.build_context(), vec!["system prompt", "facts", "l1", "l2", "l3"]);
    assert_eq!(w.total_tokens(), 3 + 1);
    w.compress_linear(2);
    w.compress_structured();
    assert_eq!(w.build_context(), vec!["system prompt", "l2", "l3"]);
}

#[test]
fn short_term_memory_drops_oldest() {
    let mut m = ShortTermMemory::new(2);
    m.add("a".into(), MemoryType::UserInput);
    m.add("b".into(), MemoryType::Decision);
    m.add("c".into(), MemoryType::Summary);
    assert_eq!(m.len(), 2);
    assert_eq!(m.entries()[0].content, "b");
    assert_eq!(m.entries()[1].id, 3);
    assert_eq!(m.recent(1)[0].content, "c");
    assert_eq!(MemoryType::Decision.stored_name(), "Decision");
    m.clear();
    assert!(m.is_empty());
}

#[test]
fn layer_estimate_counts_characters() {
    let l = |ms: Vec<String>| ContextLayer { name: "L".into(), messages: ms, compressible: true };
    assert_eq!(l(vec!["abcdefgh".into()]).token_estimate(), 2);
    assert_eq!(l(vec!["abcdefg".into(), "abc".into()]).token_estimate(), 1);
    assert_eq!(l(vec!["你好世界".into()]).token_estimate(), 1);
}
