//! Commit log display, resets and stash housekeeping.

pub mod reset;
pub mod stash;
pub mod viewer;
