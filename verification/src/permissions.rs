//! Project access control: administrators see every project, other users see the
//! projects granted to them.
pub mod checker;
pub mod config;

pub use checker::PermissionChecker;
