//! The policy engine: a default decision table, custom rules that override it, and an
//! audit entry for every decision.
use vstd::prelude::*;
use super::audit::AuditLog;
use super::roles::{decision_name_text, decision_text, tool_name_text, tool_text, PolicyDecision, Role, ToolName, ToolRequest};
use crate::text::concat2;

verus! {

/// The decision for a role on a tool.
#[derive(PartialEq, Eq, Structural, Clone, Copy, Debug)]
pub struct PolicyRule {
    pub role: Role,
    pub tool_name: ToolName,
    pub decision: PolicyDecision,
}

/// The decision of the last rule for `role` and `tool`, if any.
pub open spec fn rule_decision(rules: Seq<PolicyRule>, role: Role, tool: ToolName) -> Option<PolicyDecision>
    decreases rules.len(),
{
    if rules.len() == 0 {
        None
    } else if rules.last().role == role && rules.last().tool_name == tool {
        Some(rules.last().decision)
    } else {
        rule_decision(rules.drop_last(), role, tool)
    }
}

/// The decision for `role` and `tool`: the last matching rule's, `Deny` when none matches.
pub open spec fn decide(rules: Seq<PolicyRule>, role: Role, tool: ToolName) -> PolicyDecision {
    match rule_decision(rules, role, tool) {
        Some(d) => d,
        None => PolicyDecision::Deny,
    }
}

/// The default rules.
pub open spec fn default_rules() -> Seq<PolicyRule> {
    seq![
        PolicyRule { role: Role::Admin, tool_name: ToolName::Read, decision: PolicyDecision::Allow },
        PolicyRule { role: Role::Admin, tool_name: ToolName::Write, decision: PolicyDecision::Allow },
        PolicyRule { role: Role::Admin, tool_name: ToolName::Bash, decision: PolicyDecision::Allow },
        PolicyRule { role: Role::Admin, tool_name: ToolName::Git, decision: PolicyDecision::Allow },
        PolicyRule { role: Role::Developer, tool_name: ToolName::Read, decision: PolicyDecision::Allow },
        PolicyRule { role: Role::Developer, tool_name: ToolName::Write, decision: PolicyDecision::Allow },
        PolicyRule { role: Role::Developer, tool_name: ToolName::Bash, decision: PolicyDecision::Prompt },
        PolicyRule { role: Role::Developer, tool_name: ToolName::Git, decision: PolicyDecision::Allow },
        PolicyRule { role: Role::Viewer, tool_name: ToolName::Read, decision: PolicyDecision::Allow },
        PolicyRule { role: Role::Viewer, tool_name: ToolName::Write, decision: PolicyDecision::Deny },
        PolicyRule { role: Role::Viewer, tool_name: ToolName::Bash, decision: PolicyDecision::Deny },
        PolicyRule { role: Role::Viewer, tool_name: ToolName::Git, decision: PolicyDecision::Deny },
    ]
}

/// The default decision table: administrators may use every tool; developers every tool,
/// with a prompt for the shell; viewers may only read.
pub open spec fn default_decision(role: Role, tool: ToolName) -> PolicyDecision {
    match role {
        Role::Admin => PolicyDecision::Allow,
        Role::Developer => if tool == ToolName::Bash {
            PolicyDecision::Prompt
        } else {
            PolicyDecision::Allow
        },
        Role::Viewer => if tool == ToolName::Read {
            PolicyDecision::Allow
        } else {
            PolicyDecision::Deny
        },
    }
}

/// The audit message of a decision: the tool, ` -> `, the decision.
pub open spec fn audit_message(tool: ToolName, d: PolicyDecision) -> Seq<char> {
    tool_text(tool) + " -> "@ + decision_text(d)
}

/// The decision of `rules` for `role` and `tool`.
fn decide_exec(rules: &Vec<PolicyRule>, role: Role, tool: ToolName) -> (d: PolicyDecision)
    ensures
        d == decide(rules@, role, tool),
{
    let mut i: usize = rules.len();
    assert(rules@.subrange(0, i as int) =~= rules@);
    while i > 0
        invariant
            i <= rules.len(),
            rule_decision(rules@, role, tool) == rule_decision(rules@.subrange(0, i as int), role, tool),
        decreases i,
    {
        let ghost t = rules@.subrange(0, i as int);
        assert(t.drop_last() =~= rules@.subrange(0, i - 1));
        let r = rules[i - 1];
        if r.role == role && r.tool_name == tool {
            return r.decision;
        }
        i = i - 1;
    }
    assert(rules@.subrange(0, 0) =~= Seq::<PolicyRule>::empty());
    PolicyDecision::Deny
}

/// Evaluates tool-call requests against its rules and logs each decision.
pub struct PolicyEngine {
    rules: Vec<PolicyRule>,
    audit_log: AuditLog,
}

impl PolicyEngine {
    /// The rules, the later ones taking precedence.
    pub closed spec fn rules(&self) -> Seq<PolicyRule> {
        self.rules@
    }

    /// The audit log.
    pub closed spec fn log(&self) -> AuditLog {
        self.audit_log
    }

    /// An engine with the default rules, logging to `audit_log`.
    pub fn new(audit_log: AuditLog) -> (e: PolicyEngine)
        ensures
            e.rules() == default_rules(),
            e.log() == audit_log,
    {
        let rules = vec![
            PolicyRule { role: Role::Admin, tool_name: ToolName::Read, decision: PolicyDecision::Allow },
            PolicyRule { role: Role::Admin, tool_name: ToolName::Write, decision: PolicyDecision::Allow },
            PolicyRule { role: Role::Admin, tool_name: ToolName::Bash, decision: PolicyDecision::Allow },
            PolicyRule { role: Role::Admin, tool_name: ToolName::Git, decision: PolicyDecision::Allow },
            PolicyRule { role: Role::Developer, tool_name: ToolName::Read, decision: PolicyDecision::Allow },
            PolicyRule { role: Role::Developer, tool_name: ToolName::Write, decision: PolicyDecision::Allow },
            PolicyRule { role: Role::Developer, tool_name: ToolName::Bash, decision: PolicyDecision::Prompt },
            PolicyRule { role: Role::Developer, tool_name: ToolName::Git, decision: PolicyDecision::Allow },
            PolicyRule { role: Role::Viewer, tool_name: ToolName::Read, decision: PolicyDecision::Allow },
            PolicyRule { role: Role::Viewer, tool_name: ToolName::Write, decision: PolicyDecision::Deny },
            PolicyRule { role: Role::Viewer, tool_name: ToolName::Bash, decision: PolicyDecision::Deny },
            PolicyRule { role: Role::Viewer, tool_name: ToolName::Git, decision: PolicyDecision::Deny },
        ];
        assert(rules@ =~= default_rules());
        PolicyEngine { rules, audit_log }
    }

    /// Decides `request` and records the decision in the audit log.
    pub fn check(&mut self, request: &ToolRequest) -> (d: PolicyDecision)
        requires
            old(self).log().wf(),
            old(self).log().next() < u64::MAX,
        ensures
            d == decide(old(self).rules(), request.role, request.tool_name),
            final(self).rules() == old(self).rules(),
            final(self).log().wf(),
            final(self).log().next() == old(self).log().next() + 1,
            final(self).log().view_entries() == old(self).log().view_entries().push(
                (old(self).log().next(), request.role, request.tool_name, d, audit_message(request.tool_name, d)),
            ),
    {
        let decision = decide_exec(&self.rules, request.role, request.tool_name);
        let mut message = concat2(tool_name_text(request.tool_name), " -> ");
        message.append(decision_name_text(decision));
        let entry = AuditLog::entry(request.role, request.tool_name, decision, message);
        self.audit_log.record(entry);
        decision
    }

    /// Adds a custom rule, which takes precedence over the earlier ones.
    pub fn add_rule(&mut self, rule: PolicyRule)
        ensures
            final(self).rules() == old(self).rules().push(rule),
            final(self).log() == old(self).log(),
    {
        self.rules.push(rule);
    }

    /// The audit log.
    pub fn audit_log(&self) -> (l: &AuditLog)
        ensures
            *l == self.log(),
    {
        &self.audit_log
    }
}

/// The default rules give the default decision table.
pub proof fn lemma_default_table(role: Role, tool: ToolName)
    ensures
        decide(default_rules(), role, tool) == default_decision(role, tool),
{
    reveal_with_fuel(rule_decision, 13);
}

/// A rule added last decides its own role and tool, and leaves every other pair's
/// decision as it was.
pub proof fn lemma_added_rule_wins(rules: Seq<PolicyRule>, rule: PolicyRule, role: Role, tool: ToolName)
    ensures
        decide(rules.push(rule), rule.role, rule.tool_name) == rule.decision,
        (role != rule.role || tool != rule.tool_name) ==> decide(rules.push(rule), role, tool) == decide(rules, role, tool),
{
    assert(rules.push(rule).drop_last() =~= rules);
}

/// The last matching rule of a concatenation comes from its second part when that part
/// has one, else from the first.
proof fn lemma_rule_decision_concat(a: Seq<PolicyRule>, b: Seq<PolicyRule>, role: Role, tool: ToolName)
    ensures
        rule_decision(a + b, role, tool) == match rule_decision(b, role, tool) {
            Some(d) => Some(d),
            None => rule_decision(a, role, tool),
        },
    decreases b.len(),
{
    if b.len() == 0 {
        assert(a + b =~= a);
    } else {
        assert((a + b).drop_last() =~= a + b.drop_last());
        assert((a + b).last() == b.last());
        lemma_rule_decision_concat(a, b.drop_last(), role, tool);
    }
}

/// After the default rules and the rules `added` in turn, a request is decided by the last
/// added rule for its role and tool, and by the default table when no added rule matches.
pub proof fn lemma_added_rules_decide(added: Seq<PolicyRule>, role: Role, tool: ToolName)
    ensures
        decide(default_rules() + added, role, tool) == match rule_decision(added, role, tool) {
            Some(d) => d,
            None => default_decision(role, tool),
        },
{
    lemma_rule_decision_concat(default_rules(), added, role, tool);
    lemma_default_table(role, tool);
}

} // verus!
