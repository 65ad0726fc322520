//! Safety rules for dangerous operations, the audit log and its reports.

pub mod guard;
pub mod audit;
pub mod recovery;
