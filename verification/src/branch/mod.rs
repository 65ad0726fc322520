//! Branch housekeeping: cleaning merged branches, finding stale ones, the
//! whitelist of protected names and switching many repositories at once.

pub mod cleanup;
pub mod stale;
pub mod whitelist;
pub mod batch_ops;
