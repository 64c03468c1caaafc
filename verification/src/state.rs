//! Workflow state: the plain state map and its shared, lock-protected
//! handle.

pub mod plain;
pub mod shared;
