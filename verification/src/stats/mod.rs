//! Contribution statistics: file filtering, line classification,
//! aggregation and reports.

pub mod filter;
pub mod analyzer;
pub mod engine;
pub mod report;
pub mod exporter;
pub mod merge;
