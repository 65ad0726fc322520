//! Operations over many repositories: what to visit, each repository's
//! outcome, and the summary.

pub mod ops;
pub mod runner;
pub mod scanner;
pub mod summary;
