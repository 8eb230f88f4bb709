//! Roles, tools and decisions.
use vstd::prelude::*;

verus! {

/// Role of the caller.
#[derive(PartialEq, Eq, Structural, Clone, Copy, Debug)]
pub enum Role {
    Admin,
    Developer,
    Viewer,
}

/// A tool that can be called.
#[derive(PartialEq, Eq, Structural, Clone, Copy, Debug)]
pub enum ToolName {
    Read,
    Write,
    Bash,
    Git,
}

/// Decision of the policy.
#[derive(PartialEq, Eq, Structural, Clone, Copy, Debug)]
pub enum PolicyDecision {
    Allow,
    Deny,
    Prompt,
}

/// A tool-call request.
#[derive(Debug, Clone)]
pub struct ToolRequest {
    pub role: Role,
    pub tool_name: ToolName,
    pub target_path: Option<String>,
    pub arguments: Vec<String>,
}

impl ToolRequest {
    /// A request with the given fields.
    pub fn new(role: Role, tool_name: ToolName, target_path: Option<String>, arguments: Vec<String>) -> (r: ToolRequest)
        ensures
            r.role == role,
            r.tool_name == tool_name,
            r.target_path == target_path,
            r.arguments == arguments,
    {
        ToolRequest { role, tool_name, target_path, arguments }
    }
}

/// The name of a tool as it is printed.
pub open spec fn tool_text(t: ToolName) -> Seq<char> {
    match t {
        ToolName::Read => "Read"@,
        ToolName::Write => "Write"@,
        ToolName::Bash => "Bash"@,
        ToolName::Git => "Git"@,
    }
}

/// The name of a decision as it is printed.
pub open spec fn decision_text(d: PolicyDecision) -> Seq<char> {
    match d {
        PolicyDecision::Allow => "Allow"@,
        PolicyDecision::Deny => "Deny"@,
        PolicyDecision::Prompt => "Prompt"@,
    }
}

/// The printed name of a tool.
pub fn tool_name_text(t: ToolName) -> (s: &'static str)
    ensures
        s@ == tool_text(t),
{
    match t {
        ToolName::Read => "Read",
        ToolName::Write => "Write",
        ToolName::Bash => "Bash",
        ToolName::Git => "Git",
    }
}

/// The printed name of a decision.
pub fn decision_name_text(d: PolicyDecision) -> (s: &'static str)
    ensures
        s@ == decision_text(d),
{
    match d {
        PolicyDecision::Allow => "Allow",
        PolicyDecision::Deny => "Deny",
        PolicyDecision::Prompt => "Prompt",
    }
}

} // verus!
