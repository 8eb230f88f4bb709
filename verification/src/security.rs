//! Tool-call policy: roles, the default decision table with custom rules, and the
//! audit log of every decision.
pub mod audit;
pub mod policy;
pub mod roles;

pub use audit::{AuditEntry, AuditLog};
pub use policy::{PolicyEngine, PolicyRule};
pub use roles::{PolicyDecision, Role, ToolName, ToolRequest};
