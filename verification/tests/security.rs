use devops_agent::security::audit::AuditLog;
use devops_agent::security::policy::{PolicyEngine, PolicyRule};
use devops_agent::security::roles::{PolicyDecision, Role, ToolName, ToolRequest};

#[test]
fn test_role_has_three_variants() {
    let admin = Role::Admin;
    let dev = Role::Developer;
    let viewer = Role::Viewer;

    assert_ne!(admin, dev);
    assert_ne!(dev, viewer);
    assert_ne!(admin, viewer);
}

#[test]
fn test_tool_name_has_four_variants() {
    let r = ToolName::Read;
    let w = ToolName::Write;
    let b = ToolName::Bash;
    let g = ToolName::Git;

    assert_ne!(r, w);
    assert_ne!(w, b);
    assert_ne!(b, g);
    assert_ne!(r, g);
}

#[test]
fn test_policy_decision_has_three_variants() {
    let allow = PolicyDecision::Allow;
    let deny = PolicyDecision::Deny;
    let prompt = PolicyDecision::Prompt;

    assert_ne!(allow, deny);
    assert_ne!(deny, prompt);
    assert_ne!(allow, prompt);
}

#[test]
fn test_tool_request_new_sets_all_fields() {
    let req = ToolRequest::new(
        Role::Admin,
        ToolName::Bash,
        Some("/tmp/test".to_string()),
        vec!["ls".to_string(), "-la".to_string()],
    );

    assert_eq!(req.role, Role::Admin);
    assert_eq!(req.tool_name, ToolName::Bash);
    assert_eq!(req.target_path, Some("/tmp/test".to_string()));
    assert_eq!(req.arguments.len(), 2);
    assert_eq!(req.arguments[0], "ls");
    assert_eq!(req.arguments[1], "-la");
}

#[test]
fn test_tool_request_optional_path() {
    let req = ToolRequest::new(Role::Viewer, ToolName::Read, None, vec![]);

    assert_eq!(req.target_path, None);
    assert!(req.arguments.is_empty());
}

fn request(role: Role, tool: ToolName) -> ToolRequest {
    ToolRequest::new(role, tool, None, vec![])
}

#[test]
fn default_policy_table() {
    let mut engine = PolicyEngine::new(AuditLog::new());
    for tool in [ToolName::Read, ToolName::Write, ToolName::Bash, ToolName::Git] {
        assert_eq!(engine.check(&request(Role::Admin, tool)), PolicyDecision::Allow);
    }
    assert_eq!(engine.check(&request(Role::Developer, ToolName::Bash)), PolicyDecision::Prompt);
    assert_eq!(engine.check(&request(Role::Developer, ToolName::Write)), PolicyDecision::Allow);
    assert_eq!(engine.check(&request(Role::Viewer, ToolName::Read)), PolicyDecision::Allow);
    assert_eq!(engine.check(&request(Role::Viewer, ToolName::Git)), PolicyDecision::Deny);
}

#[test]
fn custom_rule_overrides_default() {
    let mut engine = PolicyEngine::new(AuditLog::new());
    engine.add_rule(PolicyRule { role: Role::Viewer, tool_name: ToolName::Bash, decision: PolicyDecision::Allow });
    assert_eq!(engine.check(&request(Role::Viewer, ToolName::Bash)), PolicyDecision::Allow);
    assert_eq!(engine.check(&request(Role::Viewer, ToolName::Write)), PolicyDecision::Deny);
}

#[test]
fn every_decision_is_audited() {
    let mut engine = PolicyEngine::new(AuditLog::new());
    engine.check(&request(Role::Developer, ToolName::Bash));
    engine.check(&request(Role::Viewer, ToolName::Write));
    let entries = engine.audit_log().entries();
    assert_eq!(entries.len(), 2);
    assert_eq!(entries[0].id, 1);
    assert_eq!(entries[0].message, "Bash -> Prompt");
    assert_eq!(entries[1].id, 2);
    assert_eq!(entries[1].decision, PolicyDecision::Deny);
    assert_eq!(entries[1].message, "Write -> Deny");
}

#[test]
fn clock_reads_milliseconds_since_the_epoch() {
    let t = devops_agent::clock::now_millis();
    // 2020-09-13 in milliseconds; any working clock is past it
    assert!(t > 1_600_000_000_000);
}
