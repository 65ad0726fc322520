//! Git repository helper toolbox: the decision and formatting logic of a
//! git companion tool, verified.

pub mod text;
pub mod stats;
pub mod branch;
pub mod safety;
pub mod log_ops;
pub mod multi_repo;
pub mod config;
pub mod cli;
pub mod ui;
pub mod languages;
pub mod order;
pub mod error;
pub mod repo;
